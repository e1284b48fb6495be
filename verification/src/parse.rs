//! The registry builder: reads the declarations of a type map and fills the
//! registry with nodes, fixed conversions and generic rules.

use crate::attrs::{
    is_wrong_cfg_pointer_width, my_syn_attrs_to_hashmap, plain_diagnostic, swig_attrs_of,
    values_model, width_verdict, AttrValue, AttrValueModel, MyAttrs, FROM_VAR_TEMPLATE, SWIG_CODE,
    SWIG_FROM_ATTR_NAME, SWIG_FROM_FOREIGNER_HINT, SWIG_GENERIC_ARG, SWIG_TO_ATTR_NAME,
    SWIG_TO_FOREIGNER_HINT, TO_VAR_TEMPLATE,
};
use crate::decl::{Attribute, ImplItem, Item, ItemImpl, ItemKind, Meta, TraitArguments, TraitPath};
use crate::name_map::NameMap;
use crate::normalize::{normalize_ty_lifetimes, normalized};
use crate::registry::{
    add_conv_code, code_map, with_conv_code, with_rule, with_trait_code, with_utils_code, TypeMap,
    TypeMapModel,
};
use crate::rule::{text_model, GenericTypeConv, RuleModel};
use crate::source::{DiagnosticError, DiagnosticModel, SourceId, Span, SpanNoteModel};
use crate::syntax::{lowered_type, parse_type, MAX_TYPE_DEPTH};
use crate::text::{has_substring, text_contains};
use crate::trait_bounds::{Generics, GenericsModel, TypeParam, TypeParamModel};
use crate::type_expr::{ident_type, reference_type, TypeExpr, TypeModel};
use vstd::prelude::*;
use vstd::string::*;

verus! {

/// The name of the module that holds the foreign type map.
pub const MOD_NAME_WITH_FOREIGN_TYPES: &'static str = "swig_foreign_types_map";

/// The attribute that names a foreign type.
pub const SWIG_FOREIGNER_TYPE: &'static str = "swig_foreigner_type";

/// The attribute that names the host type of the foreign type before it.
pub const SWIG_RUST_TYPE: &'static str = "swig_rust_type";

/// The cast trait whose implementer is the source of the conversion.
pub const SWIG_INTO_TRAIT: &'static str = "SwigInto";

/// The cast trait whose implementer is the destination of the conversion.
pub const SWIG_FROM_TRAIT: &'static str = "SwigFrom";

/// The trait of conversions to a shared reference.
pub const SWIG_DEREF_TRAIT: &'static str = "SwigDeref";

/// The trait of conversions to a mutable reference.
pub const SWIG_DEREF_MUT_TRAIT: &'static str = "SwigDerefMut";

/// The associated type that a dereference trait converts to.
pub const TARGET_ASSOC_TYPE: &'static str = "Target";

/// The model of the outcome of a step of the builder that gives a text.
pub open spec fn text_outcome(r: Result<&str, DiagnosticError>) -> Result<
    Seq<char>,
    DiagnosticModel,
> {
    match r {
        Ok(t) => Ok(t@),
        Err(e) => Err(e@),
    }
}

/// Whether a code template names the variable it reads and the variable it writes.
pub open spec fn template_is_valid(code: Seq<char>) -> bool {
    has_substring(code, TO_VAR_TEMPLATE@) && has_substring(code, FROM_VAR_TEMPLATE@)
}

/// The message for a code template that misses a placeholder.
pub open spec fn template_fault(code: Seq<char>) -> Seq<char> {
    code + " not contains one of "@ + TO_VAR_TEMPLATE@ + ", "@ + FROM_VAR_TEMPLATE@
}

/// Checks that a code template names the variable it reads, `{from_var}`,
/// and the variable it writes, `{to_var}`.
pub fn validate_code_template(sp: Span, code: &str) -> (r: Result<(), DiagnosticError>)
    ensures
        match r {
            Ok(_) => template_is_valid(code@),
            Err(e) => !template_is_valid(code@) && e@ == plain_diagnostic(sp, template_fault(code@)),
        },
{
    if text_contains(code, TO_VAR_TEMPLATE) && text_contains(code, FROM_VAR_TEMPLATE) {
        Ok(())
    } else {
        let mut message = String::from_str(code);
        message.append(" not contains one of ");
        message.append(TO_VAR_TEMPLATE);
        message.append(", ");
        message.append(FROM_VAR_TEMPLATE);
        Err(DiagnosticError::new(sp, message.as_str()))
    }
}

/// The code template that the attributes of a declaration give under the
/// attribute name `name`: there has to be exactly one such attribute, and its
/// value has to be a valid template.
pub open spec fn swig_code_of(
    item_span: Span,
    name: Seq<char>,
    attrs: Map<Seq<char>, Seq<AttrValueModel>>,
) -> Result<Seq<char>, DiagnosticModel> {
    if !attrs.contains_key(name) {
        Err(plain_diagnostic(item_span, "No "@ + name + " attribute"@))
    } else if attrs[name].len() != 1 {
        Err(
            plain_diagnostic(
                item_span,
                "Expect to have "@ + name + " attribute, and it should be only one"@,
            ),
        )
    } else if !template_is_valid(attrs[name][0].value) {
        Err(plain_diagnostic(attrs[name][0].span, template_fault(attrs[name][0].value)))
    } else {
        Ok(attrs[name][0].value)
    }
}

/// Takes the code template of a declaration from its attribute `swig_code_attr_name`.
pub fn get_swig_code_from_attrs<'b>(
    item_span: Span,
    swig_code_attr_name: &str,
    attrs: &'b MyAttrs,
) -> (r: Result<&'b str, DiagnosticError>)
    ensures
        text_outcome(r) == swig_code_of(item_span, swig_code_attr_name@, attrs@),
{
    match attrs.get(swig_code_attr_name) {
        Some(swig_code) => {
            if swig_code.len() != 1 {
                let mut message = String::from_str("Expect to have ");
                message.append(swig_code_attr_name);
                message.append(" attribute, and it should be only one");
                Err(DiagnosticError::new(item_span, message.as_str()))
            } else {
                assert(values_model(swig_code@)[0] == swig_code@[0]@);
                match validate_code_template(swig_code[0].span, swig_code[0].value.as_str()) {
                    Ok(_) => Ok(swig_code[0].value.as_str()),
                    Err(e) => Err(e),
                }
            }
        },
        None => {
            let mut message = String::from_str("No ");
            message.append(swig_code_attr_name);
            message.append(" attribute");
            Err(DiagnosticError::new(item_span, message.as_str()))
        },
    }
}

/// Whether the path is the plain name `ident`, whatever its arguments.
pub open spec fn names_trait(path: TraitPath, ident: Seq<char>) -> bool {
    !path.leading_colon && path.segments@.len() == 1 && path.segments@[0].ident@ == ident
}

/// Whether the trait path is the plain name `ident`; generic arguments do not count.
pub fn is_ident_ignore_params(path: &TraitPath, ident: &str) -> (r: bool)
    ensures
        r == names_trait(*path, ident@),
{
    !path.leading_colon && path.segments.len() == 1 && path.segments[0].ident == String::from_str(
        ident,
    )
}

/// The type that a one-argument trait path is applied to, or what is wrong
/// with the path.
pub open spec fn trait_param_of(path: TraitPath) -> Result<TypeExpr, DiagnosticModel> {
    if path.segments@.len() != 1 {
        Err(plain_diagnostic(path.span, "Invalid trait path"@))
    } else {
        let segment = path.segments@[0];
        match segment.arguments {
            TraitArguments::AngleBracketed { args } => if args@.len() != 1 {
                Err(plain_diagnostic(segment.arguments_span, "Should be only one generic argument"@))
            } else {
                match args@[0].ty {
                    Some(ty) => Ok(ty),
                    None => Err(plain_diagnostic(args@[0].span, "Expect type here"@)),
                }
            },
            _ => Err(plain_diagnostic(segment.arguments_span, "Expect generic arguments here"@)),
        }
    }
}

/// Takes the one type argument of a trait path such as `SwigFrom<T>`.
pub fn extract_trait_param_type(trait_path: &TraitPath) -> (r: Result<&TypeExpr, DiagnosticError>)
    ensures
        match r {
            Ok(ty) => trait_param_of(*trait_path) == Ok::<TypeExpr, DiagnosticModel>(*ty),
            Err(e) => trait_param_of(*trait_path) == Err::<TypeExpr, DiagnosticModel>(e@),
        },
{
    if trait_path.segments.len() != 1 {
        return Err(DiagnosticError::new(trait_path.span, "Invalid trait path"));
    }
    let segment = &trait_path.segments[0];
    match &segment.arguments {
        TraitArguments::AngleBracketed { args } => {
            if args.len() != 1 {
                return Err(
                    DiagnosticError::new(
                        segment.arguments_span,
                        "Should be only one generic argument",
                    ),
                );
            }
            match &args[0].ty {
                Some(ty) => Ok(ty),
                None => Err(DiagnosticError::new(args[0].span, "Expect type here")),
            }
        },
        _ => Err(DiagnosticError::new(segment.arguments_span, "Expect generic arguments here")),
    }
}

/// The type of the first of the first `n` items that is an associated type named `name`.
pub open spec fn first_associated_type(items: Seq<ImplItem>, name: Seq<char>, n: nat) -> Option<
    TypeExpr,
>
    decreases n,
{
    if n == 0 || n > items.len() {
        None
    } else {
        match first_associated_type(items, name, (n - 1) as nat) {
            Some(ty) => Some(ty),
            None => match items[n - 1] {
                ImplItem::Type { ident, ty } => if ident@ == name {
                    Some(ty)
                } else {
                    None
                },
                ImplItem::Other => None,
            },
        }
    }
}

/// Once the associated type is found, the items behind it do not count.
pub proof fn lemma_first_associated_type_stable(
    items: Seq<ImplItem>,
    name: Seq<char>,
    n: nat,
    m: nat,
)
    requires
        n <= m <= items.len(),
        first_associated_type(items, name, n) is Some,
    ensures
        first_associated_type(items, name, m) == first_associated_type(items, name, n),
    decreases m,
{
    if n < m {
        lemma_first_associated_type_stable(items, name, n, (m - 1) as nat);
    }
}

/// The type of the first associated type named `assoc_type_name` in an `impl`.
pub fn unpack_first_associated_type<'a>(items: &'a Vec<ImplItem>, assoc_type_name: &str) -> (r:
    Option<&'a TypeExpr>)
    ensures
        match r {
            Some(ty) => first_associated_type(items@, assoc_type_name@, items@.len()) == Some(*ty),
            None => first_associated_type(items@, assoc_type_name@, items@.len()) is None,
        },
{
    let key = String::from_str(assoc_type_name);
    let mut i: usize = 0;
    while i < items.len()
        invariant
            i <= items.len(),
            key@ == assoc_type_name@,
            first_associated_type(items@, assoc_type_name@, i as nat) is None,
        decreases items.len() - i,
    {
        match &items[i] {
            ImplItem::Type { ident, ty } => {
                if *ident == key {
                    proof {
                        lemma_first_associated_type_stable(
                            items@,
                            assoc_type_name@,
                            (i + 1) as nat,
                            items@.len() as nat,
                        );
                    }
                    return Some(ty);
                }
            },
            ImplItem::Other => {},
        }
        i += 1;
    }
    None
}

/// The direction of a naming hint.
#[derive(PartialEq, Eq, Structural, Clone, Copy)]
pub enum ForeignHintVariant {
    From,
    To,
}

/// The name of the attribute that carries the hint of a direction.
pub open spec fn hint_attr_name(variant: ForeignHintVariant) -> Seq<char> {
    if variant == ForeignHintVariant::To {
        SWIG_TO_FOREIGNER_HINT@
    } else {
        SWIG_FROM_FOREIGNER_HINT@
    }
}

/// The diagnostic with one remark.
pub open spec fn noted_diagnostic(
    span: Span,
    message: Seq<char>,
    note_span: Span,
    note: Seq<char>,
) -> DiagnosticModel {
    DiagnosticModel {
        src_id: SourceId { id: None },
        span,
        message,
        notes: seq![SpanNoteModel { span: note_span, message: note }],
        internal: false,
    }
}

/// The naming hint that the attributes give to a generic rule for one
/// direction: none without a hint attribute; otherwise there has to be one
/// such attribute and one type parameter, and the hint has to name the parameter.
pub open spec fn foreigner_hint_of(
    generic: GenericsModel,
    attrs: Map<Seq<char>, Seq<AttrValueModel>>,
    variant: ForeignHintVariant,
) -> Result<Option<Seq<char>>, DiagnosticModel> {
    let name = hint_attr_name(variant);
    if !attrs.contains_key(name) {
        Ok(None)
    } else {
        let hints = attrs[name];
        if hints.len() != 1 {
            Err(
                noted_diagnostic(
                    hints[1].span,
                    "Several "@ + name + " attributes"@,
                    hints[0].span,
                    "First "@ + name,
                ),
            )
        } else if generic.type_params.len() != 1 {
            Err(
                plain_diagnostic(
                    generic.span,
                    "Expect exactly one generic parameter for "@ + name,
                ),
            )
        } else if !has_substring(hints[0].value, generic.type_params[0].ident) {
            Err(
                noted_diagnostic(
                    hints[0].span,
                    name + " not contains "@ + generic.type_params[0].ident,
                    generic.span,
                    generic.type_params[0].ident + " defined here"@,
                ),
            )
        } else {
            Ok(Some(hints[0].value))
        }
    }
}

/// The model of an optional hint or a diagnostic.
pub open spec fn hint_outcome(r: Result<Option<String>, DiagnosticError>) -> Result<
    Option<Seq<char>>,
    DiagnosticModel,
> {
    match r {
        Ok(hint) => Ok(text_model(hint)),
        Err(e) => Err(e@),
    }
}

/// Reads the naming hint of one direction for a generic rule.
pub fn get_foreigner_hint_for_generic(
    generic: &Generics,
    attrs: &MyAttrs,
    variant: ForeignHintVariant,
) -> (r: Result<Option<String>, DiagnosticError>)
    requires
        attrs.wf(),
    ensures
        hint_outcome(r) == foreigner_hint_of(generic@, attrs@, variant),
        r matches Ok(Some(_)) ==> generic.type_params@.len() == 1,
{
    let attr_name = if variant == ForeignHintVariant::To {
        SWIG_TO_FOREIGNER_HINT
    } else {
        SWIG_FROM_FOREIGNER_HINT
    };
    match attrs.get(attr_name) {
        Some(hints) => {
            assert(values_model(hints@).len() > 0);
            assert(values_model(hints@)[0] == hints@[0]@);
            if hints.len() != 1 {
                assert(values_model(hints@)[1] == hints@[1]@);
                let mut message = String::from_str("Several ");
                message.append(attr_name);
                message.append(" attributes");
                let mut err = DiagnosticError::new(hints[1].span, message.as_str());
                let mut note = String::from_str("First ");
                note.append(attr_name);
                err.span_note(hints[0].span, note.as_str());
                assert(err@.notes =~= seq![
                    SpanNoteModel { span: hints@[0].span, message: note@ },
                ]);
                return Err(err);
            }
            if generic.type_params.len() != 1 {
                let mut message = String::from_str("Expect exactly one generic parameter for ");
                message.append(attr_name);
                return Err(DiagnosticError::new(generic.span, message.as_str()));
            }
            let first_ty_param = &generic.type_params[0];
            assert(generic@.type_params[0] == first_ty_param@);
            if !text_contains(hints[0].value.as_str(), first_ty_param.ident.as_str()) {
                let mut message = String::from_str(attr_name);
                message.append(" not contains ");
                message.append(first_ty_param.ident.as_str());
                let mut err = DiagnosticError::new(hints[0].span, message.as_str());
                let mut note = first_ty_param.ident.clone();
                note.append(" defined here");
                err.span_note(generic.span, note.as_str());
                assert(err@.notes =~= seq![SpanNoteModel { span: generic.span, message: note@ }]);
                return Err(err);
            }
            Ok(Some(hints[0].value.clone()))
        },
        None => Ok(None),
    }
}

/// One line of the foreign type map: a foreign name, the host type that
/// stands for it, and the place of the attribute that names the foreign type.
pub struct TypeNamesMapEntry {
    pub foreign_name: String,
    pub rust_name: String,
    pub rust_ty: TypeExpr,
    pub span: Span,
}

/// Mathematical model of [`TypeNamesMapEntry`].
pub struct NamesEntryModel {
    pub foreign_name: Seq<char>,
    pub rust_name: Seq<char>,
    pub rust_ty: TypeModel,
    pub span: Span,
}

impl View for TypeNamesMapEntry {
    type V = NamesEntryModel;

    open spec fn view(&self) -> NamesEntryModel {
        NamesEntryModel {
            foreign_name: self.foreign_name@,
            rust_name: self.rust_name@,
            rust_ty: self.rust_ty@,
            span: self.span,
        }
    }
}

/// The models of a list of entries.
pub open spec fn names_model(entries: Seq<TypeNamesMapEntry>) -> Seq<NamesEntryModel> {
    Seq::new(entries.len(), |i: int| entries[i]@)
}

/// The index of the first of the first `n` entries for the foreign name `name`.
pub open spec fn foreign_index(entries: Seq<NamesEntryModel>, name: Seq<char>, n: nat) -> Option<int>
    decreases n,
{
    if n == 0 || n > entries.len() {
        None
    } else {
        match foreign_index(entries, name, (n - 1) as nat) {
            Some(i) => Some(i),
            None => if entries[n - 1].foreign_name == name {
                Some(n - 1)
            } else {
                None
            },
        }
    }
}

/// What `foreign_index` finds.
pub proof fn lemma_foreign_index(entries: Seq<NamesEntryModel>, name: Seq<char>, n: nat)
    requires
        n <= entries.len(),
    ensures
        match foreign_index(entries, name, n) {
            Some(i) => 0 <= i < n && entries[i].foreign_name == name,
            None => forall|j: int| 0 <= j < n ==> (#[trigger] entries[j]).foreign_name != name,
        },
    decreases n,
{
    if n > 0 {
        lemma_foreign_index(entries, name, (n - 1) as nat);
    }
}

/// Once an entry is found, looking further finds the same one.
pub proof fn lemma_foreign_index_stable(entries: Seq<NamesEntryModel>, name: Seq<char>, n: nat, m: nat)
    requires
        n <= m <= entries.len(),
        foreign_index(entries, name, n) is Some,
    ensures
        foreign_index(entries, name, m) == foreign_index(entries, name, n),
    decreases m,
{
    if n < m {
        lemma_foreign_index_stable(entries, name, n, (m - 1) as nat);
    }
}

/// No foreign name occurs twice.
pub open spec fn distinct_foreign_names(entries: Seq<NamesEntryModel>) -> bool {
    forall|i: int, j: int|
        0 <= i < j < entries.len() ==> (#[trigger] entries[i]).foreign_name != (
        #[trigger] entries[j]).foreign_name
}

/// A foreign name that waits for its host type, and the place of the
/// attribute that names it.
pub struct PendingName {
    pub name: Seq<char>,
    pub span: Span,
}

/// What has been read of a foreign type map: the foreign name that waits for
/// its host type, and the entries.
pub struct NamesState {
    pub pending: Option<PendingName>,
    pub entries: Seq<NamesEntryModel>,
}

/// The string value of an attribute of the form `name = "value"`.
pub open spec fn name_value_text(meta: Meta) -> Option<Seq<char>> {
    match meta {
        Meta::NameValue { ident: _, lit } => match lit.str_value {
            Some(value) => Some(value@),
            None => None,
        },
        _ => None,
    }
}

/// The diagnostic for a foreign name that the map names twice: it points at
/// the attribute that names it again, and its remark at the attribute that
/// named it for the line the map holds.
pub open spec fn duplicate_foreign_name(name: Seq<char>, span: Span, previous: Span) -> DiagnosticModel {
    noted_diagnostic(
        span,
        "Duplicate "@ + SWIG_FOREIGNER_TYPE@ + " "@ + name,
        previous,
        "Previously defined here"@,
    )
}

/// The diagnostic for a host type that is no plain name.
pub open spec fn host_type_fault(value: Seq<char>, span: Span) -> DiagnosticModel {
    plain_diagnostic(span, "Expect a type name as "@ + SWIG_RUST_TYPE@ + ", got "@ + value)
}

/// The host type that the value of a `swig_rust_type` attribute names,
/// given what the value was read as: the type of a value that is read as a
/// plain name. A value that is not read gives its message, and one that is
/// read as anything else is a fault of the map; both are reported at `span`.
pub open spec fn host_type_given(
    read: Result<TypeModel, Seq<char>>,
    value: Seq<char>,
    span: Span,
) -> Result<TypeModel, DiagnosticModel> {
    match read {
        Err(message) => Err(plain_diagnostic(span, message)),
        Ok(t) => if plain_ident(t) is Some {
            Ok(t)
        } else {
            Err(host_type_fault(value, span))
        },
    }
}

/// The host type that the value of a `swig_rust_type` attribute names. The
/// value is read as a type and has to be a plain name.
pub open spec fn host_type_of(value: Seq<char>, span: Span) -> Result<TypeModel, DiagnosticModel> {
    host_type_given(lowered_type(value, MAX_TYPE_DEPTH as nat), value, span)
}

/// The entries with one more line: the host type `rust_ty`, a plain name,
/// stands for the foreign name that waits.
pub open spec fn with_names_entry(
    entries: Seq<NamesEntryModel>,
    foreign: PendingName,
    rust_ty: TypeModel,
) -> Seq<NamesEntryModel> {
    entries.push(
        NamesEntryModel {
            foreign_name: foreign.name,
            rust_name: plain_ident(rust_ty)->Some_0,
            rust_ty,
            span: foreign.span,
        },
    )
}

/// What one attribute of the foreign type map adds: a foreign name that
/// waits, or the host type for the foreign name that waits. An attribute
/// that names a foreign type which has its host type already is a fault of
/// the map, and so is a host type that is no plain name.
pub open spec fn with_names_attr(state: NamesState, a: Attribute) -> Result<
    NamesState,
    DiagnosticModel,
> {
    if a.path@ == SWIG_FOREIGNER_TYPE@ {
        match a.meta {
            Err(e) => Err(e.diagnostic()),
            Ok(meta) => match name_value_text(meta) {
                Some(value) => match foreign_index(state.entries, value, state.entries.len()) {
                    Some(first) => Err(
                        duplicate_foreign_name(value, a.span, state.entries[first].span),
                    ),
                    None => Ok(
                        NamesState {
                            pending: Some(PendingName { name: value, span: a.span }),
                            entries: state.entries,
                        },
                    ),
                },
                None => Err(plain_diagnostic(a.span, "Expect name value attribute"@)),
            },
        }
    } else if a.path@ == SWIG_RUST_TYPE@ {
        match a.meta {
            Err(e) => Err(e.diagnostic()),
            Ok(meta) => match state.pending {
                Some(foreign) => match name_value_text(meta) {
                    Some(value) => match host_type_of(value, a.span) {
                        Ok(rust_ty) => Ok(
                            NamesState {
                                pending: None,
                                entries: with_names_entry(state.entries, foreign, rust_ty),
                            },
                        ),
                        Err(e) => Err(e),
                    },
                    None => Err(plain_diagnostic(a.span, "Expect name value attribute"@)),
                },
                None => Err(
                    plain_diagnostic(
                        a.span,
                        "No "@ + SWIG_FOREIGNER_TYPE@ + " for "@ + SWIG_RUST_TYPE@,
                    ),
                ),
            },
        }
    } else {
        Err(plain_diagnostic(a.span, "Unexpected attribute: '"@ + a.text@ + "'"@))
    }
}

/// What the first `n` attributes of the foreign type map give.
pub open spec fn names_state_of(attrs: Seq<Attribute>, n: nat) -> Result<NamesState, DiagnosticModel>
    decreases n,
{
    if n == 0 || n > attrs.len() {
        Ok(NamesState { pending: None, entries: Seq::empty() })
    } else {
        match names_state_of(attrs, (n - 1) as nat) {
            Ok(state) => with_names_attr(state, attrs[n - 1]),
            Err(e) => Err(e),
        }
    }
}

/// The entries of the foreign type map with the attributes `attrs`, in the
/// order of the attributes, or the diagnostic for the first fault: an
/// attribute that is malformed or out of place, a host type that is no plain
/// name, or a foreign name that is named twice.
pub open spec fn names_map_of(attrs: Seq<Attribute>) -> Result<Seq<NamesEntryModel>, DiagnosticModel> {
    match names_state_of(attrs, attrs.len()) {
        Ok(state) => Ok(state.entries),
        Err(e) => Err(e),
    }
}

/// Once an attribute is found at fault, the diagnostic stands.
pub proof fn lemma_names_state_failed(attrs: Seq<Attribute>, n: nat, m: nat)
    requires
        n <= m <= attrs.len(),
        names_state_of(attrs, n) is Err,
    ensures
        names_state_of(attrs, m) == names_state_of(attrs, n),
    decreases m,
{
    if n < m {
        lemma_names_state_failed(attrs, n, (m - 1) as nat);
    }
}

/// The string value of an attribute of the form `name = "value"`.
fn name_value_of(meta: &Meta) -> (r: Option<&String>)
    ensures
        match r {
            Some(value) => name_value_text(*meta) == Some(value@),
            None => name_value_text(*meta) is None,
        },
{
    match meta {
        Meta::NameValue { ident: _, lit } => match &lit.str_value {
            Some(value) => Some(value),
            None => None,
        },
        _ => None,
    }
}

/// The index of the entry for the foreign name `name`.
fn find_foreign_name(entries: &Vec<TypeNamesMapEntry>, name: &String) -> (r: Option<usize>)
    ensures
        match r {
            Some(i) => i < entries@.len() && foreign_index(
                names_model(entries@),
                name@,
                entries@.len(),
            ) == Some(i as int),
            None => foreign_index(names_model(entries@), name@, entries@.len()) is None,
        },
{
    let ghost model = names_model(entries@);
    let mut i: usize = 0;
    while i < entries.len()
        invariant
            i <= entries.len(),
            model == names_model(entries@),
            foreign_index(model, name@, i as nat) is None,
        decreases entries.len() - i,
    {
        assert(model[i as int] == entries@[i as int]@);
        if entries[i].foreign_name == *name {
            proof {
                lemma_foreign_index_stable(model, name@, (i + 1) as nat, model.len());
            }
            return Some(i);
        }
        i += 1;
    }
    None
}

/// The model of a foreign name that waits.
pub open spec fn pending_model(pending: Option<(String, Span)>) -> Option<PendingName> {
    match pending {
        Some((name, span)) => Some(PendingName { name: name@, span }),
        None => None,
    }
}

/// The host type that the value of a `swig_rust_type` attribute names, with
/// its name, given what the value was read as.
pub fn host_type_from(read: Result<TypeExpr, String>, value: &str, span: Span) -> (r: Result<
    (String, TypeExpr),
    DiagnosticError,
>)
    ensures
        match r {
            Ok((name, ty)) => host_type_given(read_model(read), value@, span) == Ok::<
                TypeModel,
                DiagnosticModel,
            >(ty@) && plain_ident(ty@) == Some(name@),
            Err(e) => host_type_given(read_model(read), value@, span) == Err::<
                TypeModel,
                DiagnosticModel,
            >(e@),
        },
{
    match read {
        Err(message) => Err(DiagnosticError::new(span, message.as_str())),
        Ok(ty) => {
            let name = match as_plain_ident(&ty) {
                Some(name) => Some(name.clone()),
                None => None,
            };
            match name {
                Some(name) => Ok((name, ty)),
                None => {
                    let mut message = String::from_str("Expect a type name as ");
                    message.append(SWIG_RUST_TYPE);
                    message.append(", got ");
                    message.append(value);
                    Err(DiagnosticError::new(span, message.as_str()))
                },
            }
        },
    }
}

/// Reads the host type that the value of a `swig_rust_type` attribute names,
/// with its name.
fn read_host_type(value: &str, span: Span) -> (r: Result<(String, TypeExpr), DiagnosticError>)
    ensures
        match r {
            Ok((name, ty)) => host_type_of(value@, span) == Ok::<TypeModel, DiagnosticModel>(ty@)
                && plain_ident(ty@) == Some(name@),
            Err(e) => host_type_of(value@, span) == Err::<TypeModel, DiagnosticModel>(e@),
        },
{
    host_type_from(parse_type(value), value, span)
}

/// The model of what a text was read as.
pub open spec fn read_model(read: Result<TypeExpr, String>) -> Result<TypeModel, Seq<char>> {
    match read {
        Ok(t) => Ok(t@),
        Err(message) => Err(message@),
    }
}

/// Reads the foreign type map from the attributes of its module: each
/// `swig_foreigner_type` attribute names a foreign type, and the
/// `swig_rust_type` attribute after it names the host type that stands for
/// it, a plain name. Naming a foreign type that has its host type already is
/// a fault of the map, reported at the attribute that names it again.
pub fn parse_foreign_types_map_mod(attrs: &Vec<Attribute>) -> (r: Result<
    Vec<TypeNamesMapEntry>,
    DiagnosticError,
>)
    ensures
        match r {
            Ok(entries) => names_map_of(attrs@) == Ok::<Seq<NamesEntryModel>, DiagnosticModel>(
                names_model(entries@),
            ),
            Err(e) => names_map_of(attrs@) == Err::<Seq<NamesEntryModel>, DiagnosticModel>(e@),
        },
{
    let mut ftype: Option<(String, Span)> = None;
    let mut names_map: Vec<TypeNamesMapEntry> = Vec::new();
    let mut i: usize = 0;
    assert(names_model(names_map@) =~= Seq::<NamesEntryModel>::empty());
    while i < attrs.len()
        invariant
            i <= attrs.len(),
            names_state_of(attrs@, i as nat) == Ok::<NamesState, DiagnosticModel>(
                NamesState { pending: pending_model(ftype), entries: names_model(names_map@) },
            ),
        decreases attrs.len() - i,
    {
        let a = &attrs[i];
        let ghost before = names_model(names_map@);
        let failure: Option<DiagnosticError> = if a.path == String::from_str(SWIG_FOREIGNER_TYPE) {
            match &a.meta {
                Err(e) => Some(e.to_diagnostic()),
                Ok(meta) => match name_value_of(meta) {
                    Some(value) => match find_foreign_name(&names_map, value) {
                        Some(first) => {
                            assert(before[first as int] == names_map@[first as int]@);
                            let mut message = String::from_str("Duplicate ");
                            message.append(SWIG_FOREIGNER_TYPE);
                            message.append(" ");
                            message.append(value.as_str());
                            let mut err = DiagnosticError::new(a.span, message.as_str());
                            err.span_note(names_map[first].span, "Previously defined here");
                            assert(err@.notes =~= seq![
                                SpanNoteModel {
                                    span: before[first as int].span,
                                    message: "Previously defined here"@,
                                },
                            ]);
                            Some(err)
                        },
                        None => {
                            ftype = Some((value.clone(), a.span));
                            None
                        },
                    },
                    None => Some(DiagnosticError::new(a.span, "Expect name value attribute")),
                },
            }
        } else if a.path == String::from_str(SWIG_RUST_TYPE) {
            match &a.meta {
                Err(e) => Some(e.to_diagnostic()),
                Ok(meta) => match ftype {
                    Some((foreign_name, foreign_span)) => {
                        ftype = None;
                        match name_value_of(meta) {
                            Some(value) => match read_host_type(value.as_str(), a.span) {
                                Ok((rust_name, rust_ty)) => {
                                    names_map.push(
                                        TypeNamesMapEntry {
                                            foreign_name,
                                            rust_name,
                                            rust_ty,
                                            span: foreign_span,
                                        },
                                    );
                                    assert(names_model(names_map@) =~= before.push(
                                        names_map@[names_map@.len() - 1]@,
                                    ));
                                    None
                                },
                                Err(e) => Some(e),
                            },
                            None => Some(
                                DiagnosticError::new(a.span, "Expect name value attribute"),
                            ),
                        }
                    },
                    None => {
                        let mut message = String::from_str("No ");
                        message.append(SWIG_FOREIGNER_TYPE);
                        message.append(" for ");
                        message.append(SWIG_RUST_TYPE);
                        Some(DiagnosticError::new(a.span, message.as_str()))
                    },
                },
            }
        } else {
            let mut message = String::from_str("Unexpected attribute: '");
            message.append(a.text.as_str());
            message.append("'");
            Some(DiagnosticError::new(a.span, message.as_str()))
        };
        match failure {
            Some(e) => {
                proof {
                    lemma_names_state_failed(attrs@, (i + 1) as nat, attrs@.len() as nat);
                }
                return Err(e);
            },
            None => {},
        }
        i += 1;
    }
    Ok(names_map)
}

/// The diagnostic for a broken promise inside the generator.
pub open spec fn internal_diagnostic(span: Span, message: Seq<char>) -> DiagnosticModel {
    DiagnosticModel {
        src_id: SourceId { id: None },
        span,
        message,
        notes: Seq::empty(),
        internal: true,
    }
}

/// The registry with the first `n` entries of the foreign type map put in:
/// each host type gets a node under its name, unless the name has one, and
/// the foreign name leads to that node.
pub open spec fn with_foreign_names(m: TypeMapModel, entries: Seq<NamesEntryModel>, n: nat) -> TypeMapModel
    decreases n,
{
    if n == 0 || n > entries.len() {
        m
    } else {
        let before = with_foreign_names(m, entries, (n - 1) as nat);
        let (next, index) = crate::registry::with_node(
            before,
            entries[n - 1].rust_ty,
            entries[n - 1].rust_name,
        );
        TypeMapModel {
            foreign_names: next.foreign_names.insert(entries[n - 1].foreign_name, index),
            ..next
        }
    }
}

/// What reading the foreign type map does to the registry.
pub open spec fn foreign_types_outcome(attrs: Seq<Attribute>, m: TypeMapModel) -> Result<
    TypeMapModel,
    DiagnosticModel,
> {
    match names_map_of(attrs) {
        Ok(entries) => Ok(with_foreign_names(m, entries, entries.len())),
        Err(e) => Err(e),
    }
}

/// Whether a registry knows none of the foreign names of a foreign type map.
pub open spec fn foreign_names_are_new(attrs: Seq<Attribute>, m: TypeMapModel) -> bool {
    match names_map_of(attrs) {
        Ok(entries) => forall|i: int|
            0 <= i < entries.len() ==> !m.foreign_names.contains_key(
                (#[trigger] entries[i]).foreign_name,
            ),
        Err(_) => true,
    }
}

/// The model of the outcome of a step of the builder that changes the registry.
pub open spec fn step_outcome(r: Result<(), DiagnosticError>, ret: TypeMap) -> Result<
    TypeMapModel,
    DiagnosticModel,
> {
    match r {
        Ok(_) => Ok(ret@),
        Err(e) => Err(e@),
    }
}

/// Reads the foreign type map from the attributes of its module and puts it
/// into the registry, which must not know any of the map's foreign names yet.
/// A map that is at fault leaves the registry as it is.
#[verifier::loop_isolation(false)]
pub fn fill_foreign_types_map(attrs: &Vec<Attribute>, ret: &mut TypeMap) -> (r: Result<
    (),
    DiagnosticError,
>)
    requires
        old(ret).wf(),
        foreign_names_are_new(attrs@, old(ret)@),
    ensures
        step_outcome(r, *final(ret)) == foreign_types_outcome(attrs@, old(ret)@),
        final(ret).wf(),
        r is Err ==> final(ret)@ == old(ret)@,
{
    let names_map = match parse_foreign_types_map_mod(attrs) {
        Ok(entries) => entries,
        Err(e) => {
            return Err(e);
        },
    };
    let ghost entries = names_model(names_map@);
    let mut i: usize = 0;
    while i < names_map.len()
        invariant
            i <= names_map.len(),
            entries == names_model(names_map@),
            ret@ == with_foreign_names(old(ret)@, entries, i as nat),
            ret.wf(),
        decreases names_map.len() - i,
    {
        let entry = &names_map[i];
        assert(entries[i as int] == entry@);
        let graph_id = ret.node_for(entry.rust_ty.clone_type(), entry.rust_name.as_str());
        ret.foreign_names_map.insert(entry.foreign_name.as_str(), graph_id);
        i += 1;
    }
    Ok(())
}

/// The suffix that a naming hint gives to the name of a fixed conversion's
/// type: the value of the hint attribute `name`, which has to be the only
/// attribute of the declaration.
pub open spec fn lone_hint(attrs: Map<Seq<char>, Seq<AttrValueModel>>, name: Seq<char>, span: Span) -> Result<
    Option<Seq<char>>,
    DiagnosticModel,
> {
    if !attrs.contains_key(name) {
        Ok(None)
    } else if attrs.dom() != set![name] || attrs[name].len() != 1 {
        Err(plain_diagnostic(span, "Expect only "@ + name + " attribute"@))
    } else {
        Ok(Some(attrs[name][0].value))
    }
}

/// Reads the suffix that the hint attribute `name` gives.
fn get_lone_hint(swig_attrs: &MyAttrs, name: &str, span: Span) -> (r: Result<
    Option<String>,
    DiagnosticError,
>)
    requires
        swig_attrs.wf(),
    ensures
        hint_outcome(r) == lone_hint(swig_attrs@, name@, span),
{
    match swig_attrs.get(name) {
        Some(values) => {
            if !swig_attrs.has_only(name) || values.len() != 1 {
                let mut message = String::from_str("Expect only ");
                message.append(name);
                message.append(" attribute");
                Err(DiagnosticError::new(span, message.as_str()))
            } else {
                assert(values_model(values@)[0] == values@[0]@);
                Ok(Some(values[0].value.clone()))
            }
        },
        None => Ok(None),
    }
}

/// The generic rule from `from_ty` to `to_ty` with the hints that the
/// attributes give, or what is wrong with a hint.
pub open spec fn generic_rule_of(
    from_ty: TypeModel,
    to_ty: TypeModel,
    code: Seq<char>,
    item_code: Seq<char>,
    generics: GenericsModel,
    attrs: Map<Seq<char>, Seq<AttrValueModel>>,
) -> Result<RuleModel, DiagnosticModel> {
    match foreigner_hint_of(generics, attrs, ForeignHintVariant::To) {
        Err(e) => Err(e),
        Ok(to_hint) => match foreigner_hint_of(generics, attrs, ForeignHintVariant::From) {
            Err(e) => Err(e),
            Ok(from_hint) => Ok(
                RuleModel {
                    src_id: SourceId { id: None },
                    from_ty,
                    to_ty,
                    code_template: code,
                    dependency: Some(item_code),
                    generic_params: generics,
                    to_foreigner_hint: to_hint,
                    from_foreigner_hint: from_hint,
                },
            ),
        },
    }
}

/// Makes the generic rule from `from_ty` to `to_ty` with the hints that the attributes give.
fn make_generic_rule(
    from_ty: TypeExpr,
    to_ty: TypeExpr,
    code: &str,
    item_code: &str,
    generics: Generics,
    swig_attrs: &MyAttrs,
) -> (r: Result<GenericTypeConv, DiagnosticError>)
    requires
        swig_attrs.wf(),
    ensures
        match r {
            Ok(rule) => generic_rule_of(from_ty@, to_ty@, code@, item_code@, generics@, swig_attrs@)
                == Ok::<RuleModel, DiagnosticModel>(rule@) && rule.wf(),
            Err(e) => generic_rule_of(from_ty@, to_ty@, code@, item_code@, generics@, swig_attrs@)
                == Err::<RuleModel, DiagnosticModel>(e@),
        },
{
    let to_foreigner_hint = match get_foreigner_hint_for_generic(
        &generics,
        swig_attrs,
        ForeignHintVariant::To,
    ) {
        Ok(hint) => hint,
        Err(e) => {
            return Err(e);
        },
    };
    let from_foreigner_hint = match get_foreigner_hint_for_generic(
        &generics,
        swig_attrs,
        ForeignHintVariant::From,
    ) {
        Ok(hint) => hint,
        Err(e) => {
            return Err(e);
        },
    };
    Ok(
        GenericTypeConv {
            src_id: SourceId::none(),
            from_ty,
            to_ty,
            code_template: String::from_str(code),
            dependency: Some(String::from_str(item_code)),
            generic_params: generics,
            to_foreigner_hint,
            from_foreigner_hint,
        },
    )
}

/// What an implementation of a cast trait, `SwigInto<T>` or `SwigFrom<T>`,
/// does to the registry: with type parameters it becomes a generic rule,
/// without them a fixed conversion from the source type to the destination type.
pub open spec fn into_from_outcome(
    attrs: Map<Seq<char>, Seq<AttrValueModel>>,
    item_impl: ItemImpl,
    span: Span,
    item_code: Seq<char>,
    m: TypeMapModel,
) -> Result<TypeMapModel, DiagnosticModel> {
    let trait_path = item_impl.trait_->0;
    match lone_hint(attrs, SWIG_TO_FOREIGNER_HINT@, span) {
        Err(e) => Err(e),
        Ok(to_suffix) => match lone_hint(attrs, SWIG_FROM_FOREIGNER_HINT@, span) {
            Err(e) => Err(e),
            Ok(from_suffix) => match trait_param_of(trait_path) {
                Err(e) => Err(e),
                Ok(type_param) => {
                    let into = names_trait(trait_path, SWIG_INTO_TRAIT@);
                    let from_ty = if into {
                        item_impl.self_ty@
                    } else {
                        type_param@
                    };
                    let to_ty = if into {
                        type_param@
                    } else {
                        item_impl.self_ty@
                    };
                    let trait_name = if into {
                        SWIG_INTO_TRAIT@
                    } else {
                        SWIG_FROM_TRAIT@
                    };
                    if !m.traits_usage_code.contains_key(trait_name) {
                        Err(
                            plain_diagnostic(
                                span,
                                "Can not find conversation code for SwigInto/SwigFrom"@,
                            ),
                        )
                    } else if item_impl.generics@.type_params.len() > 0 {
                        match generic_rule_of(
                            from_ty,
                            to_ty,
                            m.traits_usage_code[trait_name],
                            item_code,
                            item_impl.generics@,
                            attrs,
                        ) {
                            Ok(rule) => Ok(with_rule(m, rule)),
                            Err(e) => Err(e),
                        }
                    } else {
                        Ok(
                            with_conv_code(
                                m,
                                (from_ty, from_suffix),
                                (to_ty, to_suffix),
                                item_code,
                                m.traits_usage_code[trait_name],
                            ),
                        )
                    }
                },
            },
        },
    }
}

/// Registers an implementation of a cast trait, `SwigInto<T>` or `SwigFrom<T>`.
pub fn handle_into_from_impl(
    swig_attrs: &MyAttrs,
    item_impl: &ItemImpl,
    item_span: Span,
    item_code: &str,
    ret: &mut TypeMap,
) -> (r: Result<(), DiagnosticError>)
    requires
        swig_attrs.wf(),
        old(ret).wf(),
        item_impl.trait_ is Some,
    ensures
        step_outcome(r, *final(ret)) == into_from_outcome(
            swig_attrs@,
            *item_impl,
            item_span,
            item_code@,
            old(ret)@,
        ),
        final(ret).wf(),
        r is Err ==> final(ret)@ == old(ret)@,
        final(ret)@.foreign_names == old(ret)@.foreign_names,
{
    let to_suffix = match get_lone_hint(swig_attrs, SWIG_TO_FOREIGNER_HINT, item_span) {
        Ok(s) => s,
        Err(e) => {
            return Err(e);
        },
    };
    let from_suffix = match get_lone_hint(swig_attrs, SWIG_FROM_FOREIGNER_HINT, item_span) {
        Ok(s) => s,
        Err(e) => {
            return Err(e);
        },
    };
    let trait_path = match &item_impl.trait_ {
        Some(path) => path,
        None => vstd::pervasive::unreached(),
    };
    let type_param = match extract_trait_param_type(trait_path) {
        Ok(ty) => ty,
        Err(e) => {
            return Err(e);
        },
    };
    let into = is_ident_ignore_params(trait_path, SWIG_INTO_TRAIT);
    let (from_ty, to_ty, trait_name) = if into {
        (item_impl.self_ty.clone_type(), type_param.clone_type(), SWIG_INTO_TRAIT)
    } else {
        (type_param.clone_type(), item_impl.self_ty.clone_type(), SWIG_FROM_TRAIT)
    };
    let conv_code = match ret.trait_code(trait_name) {
        Some(code) => code.clone(),
        None => {
            return Err(
                DiagnosticError::new(
                    item_span,
                    "Can not find conversation code for SwigInto/SwigFrom",
                ),
            );
        },
    };
    if item_impl.generics.type_params.len() > 0 {
        match make_generic_rule(
            from_ty,
            to_ty,
            conv_code.as_str(),
            item_code,
            item_impl.generics.clone_generics(),
            swig_attrs,
        ) {
            Ok(rule) => {
                ret.add_rule(rule);
                Ok(())
            },
            Err(e) => Err(e),
        }
    } else {
        add_conv_code(
            (from_ty, from_suffix),
            (to_ty, to_suffix),
            String::from_str(item_code),
            conv_code,
            ret,
        );
        Ok(())
    }
}

/// The destination of a fixed dereference: the type that the registry holds
/// under the name of the reference, or the reference itself.
pub open spec fn known_or(m: TypeMapModel, ty: TypeModel) -> TypeModel {
    if m.rust_names.contains_key(normalized(ty)) {
        m.nodes[m.rust_names[normalized(ty)] as int].ty
    } else {
        ty
    }
}

/// What an implementation of a dereference trait, `SwigDeref` or
/// `SwigDerefMut`, does to the registry: it gives a conversion from the
/// implementing type to a reference to the `Target` type.
pub open spec fn deref_outcome(
    attrs: Map<Seq<char>, Seq<AttrValueModel>>,
    item_impl: ItemImpl,
    span: Span,
    item_code: Seq<char>,
    m: TypeMapModel,
) -> Result<TypeMapModel, DiagnosticModel> {
    let trait_path = item_impl.trait_->0;
    match first_associated_type(item_impl.items@, TARGET_ASSOC_TYPE@, item_impl.items@.len()) {
        None => Err(plain_diagnostic(span, "No Target associated type"@)),
        Some(target) => {
            let shared = names_trait(trait_path, SWIG_DEREF_TRAIT@);
            let trait_name = if shared {
                SWIG_DEREF_TRAIT@
            } else {
                SWIG_DEREF_MUT_TRAIT@
            };
            let to_ref_ty = reference_type(!shared, target@);
            if !m.traits_usage_code.contains_key(trait_name) {
                Err(
                    plain_diagnostic(
                        span,
                        "Can not find conversation code for SwigDeref/SwigDerefMut"@,
                    ),
                )
            } else if item_impl.generics@.type_params.len() > 0 {
                match generic_rule_of(
                    item_impl.self_ty@,
                    to_ref_ty,
                    m.traits_usage_code[trait_name],
                    item_code,
                    item_impl.generics@,
                    attrs,
                ) {
                    Ok(rule) => Ok(with_rule(m, rule)),
                    Err(e) => Err(e),
                }
            } else {
                Ok(
                    with_conv_code(
                        m,
                        (item_impl.self_ty@, None),
                        (known_or(m, to_ref_ty), None),
                        item_code,
                        m.traits_usage_code[trait_name],
                    ),
                )
            }
        },
    }
}

/// Registers an implementation of a dereference trait, `SwigDeref` or `SwigDerefMut`.
pub fn handle_deref_impl(
    swig_attrs: &MyAttrs,
    item_impl: &ItemImpl,
    item_span: Span,
    item_code: &str,
    ret: &mut TypeMap,
) -> (r: Result<(), DiagnosticError>)
    requires
        swig_attrs.wf(),
        old(ret).wf(),
        item_impl.trait_ is Some,
    ensures
        step_outcome(r, *final(ret)) == deref_outcome(
            swig_attrs@,
            *item_impl,
            item_span,
            item_code@,
            old(ret)@,
        ),
        final(ret).wf(),
        r is Err ==> final(ret)@ == old(ret)@,
        final(ret)@.foreign_names == old(ret)@.foreign_names,
{
    let target_ty = match unpack_first_associated_type(&item_impl.items, TARGET_ASSOC_TYPE) {
        Some(ty) => ty,
        None => {
            return Err(DiagnosticError::new(item_span, "No Target associated type"));
        },
    };
    let trait_path = match &item_impl.trait_ {
        Some(path) => path,
        None => vstd::pervasive::unreached(),
    };
    let shared = is_ident_ignore_params(trait_path, SWIG_DEREF_TRAIT);
    let deref_trait = if shared {
        SWIG_DEREF_TRAIT
    } else {
        SWIG_DEREF_MUT_TRAIT
    };
    let to_ref_ty = TypeExpr::reference(!shared, target_ty.clone_type());
    let conv_code = match ret.trait_code(deref_trait) {
        Some(code) => code.clone(),
        None => {
            return Err(
                DiagnosticError::new(
                    item_span,
                    "Can not find conversation code for SwigDeref/SwigDerefMut",
                ),
            );
        },
    };
    let from_ty = item_impl.self_ty.clone_type();
    if item_impl.generics.type_params.len() > 0 {
        match make_generic_rule(
            from_ty,
            to_ref_ty,
            conv_code.as_str(),
            item_code,
            item_impl.generics.clone_generics(),
            swig_attrs,
        ) {
            Ok(rule) => {
                ret.add_rule(rule);
                Ok(())
            },
            Err(e) => Err(e),
        }
    } else {
        let to_typename = normalize_ty_lifetimes(&to_ref_ty);
        let to_ty = match ret.type_named(to_typename.as_str()) {
            Some(known) => known.ty.clone_type(),
            None => to_ref_ty,
        };
        add_conv_code((from_ty, None), (to_ty, None), String::from_str(item_code), conv_code, ret);
        Ok(())
    }
}

/// The name of a type that is a plain identifier.
pub open spec fn plain_ident(t: TypeModel) -> Option<Seq<char>> {
    match t {
        TypeModel::Path { global, segments } => if !global && segments.len() == 1
            && segments[0].arguments is None {
            Some(segments[0].ident)
        } else {
            None
        },
        _ => None,
    }
}

/// The name of a type that is a plain identifier.
fn as_plain_ident(ty: &TypeExpr) -> (r: Option<&String>)
    ensures
        match r {
            Some(name) => plain_ident(ty@) == Some(name@),
            None => plain_ident(ty@) is None,
        },
{
    match ty {
        TypeExpr::Path { global, segments } => {
            proof {
                assert(crate::type_expr::segments_model(segments@).len() == segments@.len());
                if segments@.len() == 1 {
                    assert(crate::type_expr::segments_model(segments@)[0] == segments@[0]@);
                }
            }
            if !*global && segments.len() == 1 && segments[0].arguments.is_none() {
                Some(&segments[0].ident)
            } else {
                None
            }
        },
        _ => None,
    }
}

/// The type that a text spells, read with `syn`; a text that is not read
/// as a type gives a diagnostic at `span` with the message that says why.
pub open spec fn typed_text(text: Seq<char>, span: Span) -> Result<TypeModel, DiagnosticModel> {
    match lowered_type(text, MAX_TYPE_DEPTH as nat) {
        Ok(t) => Ok(t),
        Err(message) => Err(plain_diagnostic(span, message)),
    }
}

/// The type that the value of an attribute spells.
pub open spec fn typed_value(v: AttrValueModel) -> Result<TypeModel, DiagnosticModel> {
    typed_text(v.value, v.span)
}

/// Reads the type that `type_str` spells; a text that is not read as a type
/// is reported at `span`.
pub fn parse_ty_with_given_span(type_str: &str, span: Span) -> (r: Result<
    TypeExpr,
    DiagnosticError,
>)
    ensures
        match r {
            Ok(t) => typed_text(type_str@, span) == Ok::<TypeModel, DiagnosticModel>(t@),
            Err(e) => typed_text(type_str@, span) == Err::<TypeModel, DiagnosticModel>(e@),
        },
{
    match parse_type(type_str) {
        Ok(t) => Ok(t),
        Err(message) => Err(DiagnosticError::new(span, message.as_str())),
    }
}

/// Reads the type that the value of an attribute spells.
fn spanned_str_to_type(v: &AttrValue) -> (r: Result<TypeExpr, DiagnosticError>)
    ensures
        match r {
            Ok(t) => typed_value(v@) == Ok::<TypeModel, DiagnosticModel>(t@),
            Err(e) => typed_value(v@) == Err::<TypeModel, DiagnosticModel>(e@),
        },
{
    parse_ty_with_given_span(v.value.as_str(), v.span)
}

/// The type parameters that the first `n` generic-argument attributes
/// declare: each value has to spell a plain identifier.
pub open spec fn generic_params_of(values: Seq<AttrValueModel>, n: nat) -> Result<
    Seq<TypeParamModel>,
    DiagnosticModel,
>
    decreases n,
{
    if n == 0 || n > values.len() {
        Ok(Seq::empty())
    } else {
        match generic_params_of(values, (n - 1) as nat) {
            Err(e) => Err(e),
            Ok(before) => match typed_value(values[n - 1]) {
                Err(e) => Err(e),
                Ok(t) => match plain_ident(t) {
                    Some(ident) => Ok(
                        before.push(TypeParamModel { ident, bounds: Seq::empty() }),
                    ),
                    None => Err(
                        plain_diagnostic(
                            values[n - 1].span,
                            "Expect an identifier as generic parameter"@,
                        ),
                    ),
                },
            },
        }
    }
}

/// Once a generic-argument attribute is found malformed, the diagnostic stands.
pub proof fn lemma_generic_params_failed(values: Seq<AttrValueModel>, n: nat, m: nat)
    requires
        n <= m <= values.len(),
        generic_params_of(values, n) is Err,
    ensures
        generic_params_of(values, m) == generic_params_of(values, n),
    decreases m,
{
    if n < m {
        lemma_generic_params_failed(values, n, (m - 1) as nat);
    }
}

/// Reads the type parameters that the generic-argument attributes declare.
#[verifier::loop_isolation(false)]
fn read_generic_params(values: &Vec<AttrValue>) -> (r: Result<Generics, DiagnosticError>)
    ensures
        match r {
            Ok(g) => generic_params_of(values_model(values@), values@.len()) == Ok::<
                Seq<TypeParamModel>,
                DiagnosticModel,
            >(g@.type_params) && g@.where_clause is None && g@.span == Span::spec_call_site(),
            Err(e) => generic_params_of(values_model(values@), values@.len()) == Err::<
                Seq<TypeParamModel>,
                DiagnosticModel,
            >(e@),
        },
{
    let ghost model = values_model(values@);
    let mut type_params: Vec<TypeParam> = Vec::new();
    let mut i: usize = 0;
    assert(params_model(type_params@) =~= Seq::<TypeParamModel>::empty());
    while i < values.len()
        invariant
            i <= values.len(),
            generic_params_of(model, i as nat) == Ok::<Seq<TypeParamModel>, DiagnosticModel>(
                params_model(type_params@),
            ),
        decreases values.len() - i,
    {
        let ghost before = params_model(type_params@);
        assert(model[i as int] == values@[i as int]@);
        let failure = match spanned_str_to_type(&values[i]) {
            Err(e) => Some(e),
            Ok(t) => match as_plain_ident(&t) {
                Some(ident) => {
                    let bounds = Vec::new();
                    type_params.push(TypeParam { ident: ident.clone(), bounds });
                    assert(type_params@[type_params@.len() - 1]@.bounds =~= Seq::empty());
                    assert(params_model(type_params@) =~= before.push(
                        TypeParamModel { ident: ident@, bounds: Seq::empty() },
                    ));
                    None
                },
                None => Some(
                    DiagnosticError::new(
                        values[i].span,
                        "Expect an identifier as generic parameter",
                    ),
                ),
            },
        };
        match failure {
            Some(e) => {
                proof {
                    lemma_generic_params_failed(model, (i + 1) as nat, values@.len() as nat);
                }
                return Err(e);
            },
            None => {},
        }
        i += 1;
    }
    let g = Generics { span: Span::call_site(), type_params, where_clause: None };
    assert(g@.type_params =~= params_model(type_params@));
    Ok(g)
}

/// The models of a list of type parameters.
pub open spec fn params_model(params: Seq<TypeParam>) -> Seq<TypeParamModel> {
    Seq::new(params.len(), |k: int| params[k]@)
}

/// The first fault among the attributes that every conversion macro needs:
/// a `swig_from`, a `swig_to` and one valid `swig_code`.
pub open spec fn macro_attrs_fault(attrs: Map<Seq<char>, Seq<AttrValueModel>>, span: Span) -> Option<
    DiagnosticModel,
> {
    if !attrs.contains_key(SWIG_FROM_ATTR_NAME@) {
        Some(
            plain_diagnostic(span, "No "@ + SWIG_FROM_ATTR_NAME@ + " but there are other attr"@),
        )
    } else if !attrs.contains_key(SWIG_TO_ATTR_NAME@) {
        Some(plain_diagnostic(span, "No "@ + SWIG_TO_ATTR_NAME@ + " but there are other attr"@))
    } else {
        match swig_code_of(span, SWIG_CODE@, attrs) {
            Err(e) => Some(e),
            Ok(_) => None,
        }
    }
}

/// What a conversion macro that declares type parameters does to the
/// registry: its `swig_from`, `swig_to`, `swig_code` and `swig_generic_arg`
/// attributes make a generic rule.
pub open spec fn macro_outcome(
    attrs: Map<Seq<char>, Seq<AttrValueModel>>,
    span: Span,
    item_code: Seq<char>,
    m: TypeMapModel,
) -> Result<TypeMapModel, DiagnosticModel> {
    match macro_attrs_fault(attrs, span) {
        Some(e) => Err(e),
        None => {
            let args = attrs[SWIG_GENERIC_ARG@];
            match generic_params_of(args, args.len()) {
                Err(e) => Err(e),
                Ok(params) => match typed_value(attrs[SWIG_FROM_ATTR_NAME@][0]) {
                    Err(e) => Err(e),
                    Ok(from_ty) => match typed_value(attrs[SWIG_TO_ATTR_NAME@][0]) {
                        Err(e) => Err(e),
                        Ok(to_ty) => match generic_rule_of(
                            from_ty,
                            to_ty,
                            swig_code_of(span, SWIG_CODE@, attrs)->Ok_0,
                            item_code,
                            GenericsModel {
                                span: Span::spec_call_site(),
                                type_params: params,
                                where_clause: None,
                            },
                            attrs,
                        ) {
                            Ok(rule) => Ok(with_rule(m, rule)),
                            Err(e) => Err(e),
                        },
                    },
                },
            }
        },
    }
}

/// The diagnostic for a conversion macro that declares no type parameter:
/// the first fault among its attributes, or, where they are in order, that
/// the generator does not handle such a macro.
pub open spec fn plain_macro_fault(attrs: Map<Seq<char>, Seq<AttrValueModel>>, span: Span) -> DiagnosticModel {
    match macro_attrs_fault(attrs, span) {
        Some(e) => e,
        None => internal_diagnostic(
            span,
            "conversion macro without generic arguments is not supported"@,
        ),
    }
}

/// Finds the first fault among the attributes that every conversion macro
/// needs, and gives the code template where there is none.
fn check_macro_attrs<'a>(swig_attrs: &'a MyAttrs, item_span: Span) -> (r: Result<
    &'a str,
    DiagnosticError,
>)
    requires
        swig_attrs.wf(),
    ensures
        match r {
            Ok(code) => macro_attrs_fault(swig_attrs@, item_span) is None && swig_code_of(
                item_span,
                SWIG_CODE@,
                swig_attrs@,
            ) == Ok::<Seq<char>, DiagnosticModel>(code@),
            Err(e) => macro_attrs_fault(swig_attrs@, item_span) == Some(e@),
        },
{
    if !swig_attrs.contains_key(SWIG_FROM_ATTR_NAME) {
        let mut message = String::from_str("No ");
        message.append(SWIG_FROM_ATTR_NAME);
        message.append(" but there are other attr");
        return Err(DiagnosticError::new(item_span, message.as_str()));
    }
    if !swig_attrs.contains_key(SWIG_TO_ATTR_NAME) {
        let mut message = String::from_str("No ");
        message.append(SWIG_TO_ATTR_NAME);
        message.append(" but there are other attr");
        return Err(DiagnosticError::new(item_span, message.as_str()));
    }
    get_swig_code_from_attrs(item_span, SWIG_CODE, swig_attrs)
}

/// The diagnostic for a conversion macro that declares no type parameter.
fn plain_macro_diagnostic(swig_attrs: &MyAttrs, item_span: Span) -> (r: DiagnosticError)
    requires
        swig_attrs.wf(),
    ensures
        r@ == plain_macro_fault(swig_attrs@, item_span),
{
    match check_macro_attrs(swig_attrs, item_span) {
        Err(e) => e,
        Ok(_) => DiagnosticError::internal(
            item_span,
            "conversion macro without generic arguments is not supported",
        ),
    }
}

/// Registers the generic rule that a conversion macro declares by its
/// attributes. The macro has to declare at least one type parameter.
pub fn handle_macro(swig_attrs: &MyAttrs, item_span: Span, item_code: &str, ret: &mut TypeMap) -> (r:
    Result<(), DiagnosticError>)
    requires
        swig_attrs.wf(),
        old(ret).wf(),
        swig_attrs@.contains_key(SWIG_GENERIC_ARG@),
    ensures
        step_outcome(r, *final(ret)) == macro_outcome(swig_attrs@, item_span, item_code@, old(ret)@),
        final(ret).wf(),
        r is Err ==> final(ret)@ == old(ret)@,
        final(ret)@.foreign_names == old(ret)@.foreign_names,
{
    let code_template = match check_macro_attrs(swig_attrs, item_span) {
        Ok(code) => code,
        Err(e) => {
            return Err(e);
        },
    };
    let generic_types = match swig_attrs.get(SWIG_GENERIC_ARG) {
        Some(values) => values,
        None => vstd::pervasive::unreached(),
    };
    let from_typename = match swig_attrs.get(SWIG_FROM_ATTR_NAME) {
        Some(values) => values,
        None => vstd::pervasive::unreached(),
    };
    let to_typename = match swig_attrs.get(SWIG_TO_ATTR_NAME) {
        Some(values) => values,
        None => vstd::pervasive::unreached(),
    };
    assert(values_model(generic_types@).len() == generic_types@.len());
    let generic_params = match read_generic_params(generic_types) {
        Ok(g) => g,
        Err(e) => {
            return Err(e);
        },
    };
    assert(values_model(from_typename@).len() > 0);
    assert(values_model(from_typename@)[0] == from_typename@[0]@);
    let from_ty = match spanned_str_to_type(&from_typename[0]) {
        Ok(t) => t,
        Err(e) => {
            return Err(e);
        },
    };
    assert(values_model(to_typename@).len() > 0);
    assert(values_model(to_typename@)[0] == to_typename@[0]@);
    let to_ty = match spanned_str_to_type(&to_typename[0]) {
        Ok(t) => t,
        Err(e) => {
            return Err(e);
        },
    };
    match make_generic_rule(from_ty, to_ty, code_template, item_code, generic_params, swig_attrs) {
        Ok(rule) => {
            ret.add_rule(rule);
            Ok(())
        },
        Err(e) => Err(e),
    }
}

/// What the builder takes a declaration for.
#[derive(PartialEq, Eq, Structural, Clone, Copy)]
pub enum ItemRole {
    /// The module that holds the foreign type map.
    ForeignTypesMap,
    /// An implementation of `SwigInto` or `SwigFrom`.
    IntoFrom,
    /// A trait.
    Trait,
    /// An implementation of `SwigDeref` or `SwigDerefMut`.
    Deref,
    /// A macro.
    Macro,
    /// Anything else: passed through.
    Support,
}

/// Whether an `impl` implements the trait named `a` or the trait named `b`.
pub open spec fn impl_path_is(item_impl: ItemImpl, a: Seq<char>, b: Seq<char>) -> bool {
    match item_impl.trait_ {
        Some(path) => names_trait(path, a) || names_trait(path, b),
        None => false,
    }
}

/// What the builder takes the declaration `item` for.
pub open spec fn item_role(item: Item) -> ItemRole {
    match item.kind {
        ItemKind::Mod { ident } => if ident@ == MOD_NAME_WITH_FOREIGN_TYPES@ {
            ItemRole::ForeignTypesMap
        } else {
            ItemRole::Support
        },
        ItemKind::Impl(item_impl) => if impl_path_is(item_impl, SWIG_INTO_TRAIT@, SWIG_FROM_TRAIT@) {
            ItemRole::IntoFrom
        } else if impl_path_is(item_impl, SWIG_DEREF_TRAIT@, SWIG_DEREF_MUT_TRAIT@) {
            ItemRole::Deref
        } else {
            ItemRole::Support
        },
        ItemKind::Trait { ident: _ } => ItemRole::Trait,
        ItemKind::Macro => ItemRole::Macro,
        ItemKind::Other => ItemRole::Support,
    }
}

/// Whether an `impl` implements the trait named `var1` or the trait named `var2`.
pub fn item_impl_path_is(item_impl: &ItemImpl, var1: &str, var2: &str) -> (r: bool)
    ensures
        r == impl_path_is(*item_impl, var1@, var2@),
{
    match &item_impl.trait_ {
        Some(path) => is_ident_ignore_params(path, var1) || is_ident_ignore_params(path, var2),
        None => false,
    }
}

/// Decides what the builder takes a declaration for.
pub fn role_of(item: &Item) -> (r: ItemRole)
    ensures
        r == item_role(*item),
{
    match &item.kind {
        ItemKind::Mod { ident } => {
            if *ident == String::from_str(MOD_NAME_WITH_FOREIGN_TYPES) {
                ItemRole::ForeignTypesMap
            } else {
                ItemRole::Support
            }
        },
        ItemKind::Impl(item_impl) => {
            if item_impl_path_is(item_impl, SWIG_INTO_TRAIT, SWIG_FROM_TRAIT) {
                ItemRole::IntoFrom
            } else if item_impl_path_is(item_impl, SWIG_DEREF_TRAIT, SWIG_DEREF_MUT_TRAIT) {
                ItemRole::Deref
            } else {
                ItemRole::Support
            }
        },
        ItemKind::Trait { ident: _ } => ItemRole::Trait,
        ItemKind::Macro => ItemRole::Macro,
        ItemKind::Other => ItemRole::Support,
    }
}

/// How far the builder has come: the registry so far, and where the foreign
/// type map stands if it was met.
pub struct BuildState {
    pub map: TypeMapModel,
    pub types_map_span: Option<Span>,
}

/// The diagnostic for a second foreign type map.
pub open spec fn duplicate_types_map(span: Span, previous: Span) -> DiagnosticModel {
    noted_diagnostic(
        span,
        "Should only one "@ + MOD_NAME_WITH_FOREIGN_TYPES@ + " per types map"@,
        previous,
        "Previously defined here"@,
    )
}

/// What a trait declaration does to the registry: a trait with known
/// attributes registers its code template under its name; every trait is
/// passed through.
pub open spec fn trait_outcome(
    attrs: Map<Seq<char>, Seq<AttrValueModel>>,
    ident: Seq<char>,
    span: Span,
    item_code: Seq<char>,
    m: TypeMapModel,
) -> Result<TypeMapModel, DiagnosticModel> {
    if attrs == Map::<Seq<char>, Seq<AttrValueModel>>::empty() {
        Ok(with_utils_code(m, item_code))
    } else {
        match swig_code_of(span, SWIG_CODE@, attrs) {
            Ok(code) => Ok(with_utils_code(with_trait_code(m, ident, code), item_code)),
            Err(e) => Err(e),
        }
    }
}

/// What a declaration with known attributes does to the registry. A macro
/// with known attributes has to declare a type parameter: one that declares
/// none is reported, as what the generator does not handle where its other
/// attributes are in order.
pub open spec fn attributed_outcome(
    item: Item,
    attrs: Map<Seq<char>, Seq<AttrValueModel>>,
    m: TypeMapModel,
) -> Result<TypeMapModel, DiagnosticModel> {
    match item.kind {
        ItemKind::Impl(item_impl) => if item_role(item) == ItemRole::IntoFrom {
            into_from_outcome(attrs, item_impl, item.span, item.tokens@, m)
        } else {
            deref_outcome(attrs, item_impl, item.span, item.tokens@, m)
        },
        ItemKind::Trait { ident } => trait_outcome(attrs, ident@, item.span, item.tokens@, m),
        _ => if attrs == Map::<Seq<char>, Seq<AttrValueModel>>::empty() {
            Ok(with_utils_code(m, item.tokens@))
        } else if attrs.contains_key(SWIG_GENERIC_ARG@) {
            macro_outcome(attrs, item.span, item.tokens@, m)
        } else {
            Err(plain_macro_fault(attrs, item.span))
        },
    }
}

/// What one declaration does to the state of the builder.
pub open spec fn item_outcome(item: Item, target_pointer_width: usize, state: BuildState) -> Result<
    BuildState,
    DiagnosticModel,
> {
    match item_role(item) {
        ItemRole::ForeignTypesMap => match state.types_map_span {
            Some(previous) => Err(duplicate_types_map(item.span, previous)),
            None => match foreign_types_outcome(item.attrs@, state.map) {
                Ok(m) => Ok(BuildState { map: m, types_map_span: Some(item.span) }),
                Err(e) => Err(e),
            },
        },
        ItemRole::Support => Ok(
            BuildState {
                map: with_utils_code(state.map, item.tokens@),
                types_map_span: state.types_map_span,
            },
        ),
        _ => if width_verdict(item.attrs@, item.attrs@.len(), target_pointer_width) == Some(true) {
            Ok(state)
        } else {
            match swig_attrs_of(item.attrs@, item.attrs@.len()) {
                Err(e) => Err(e),
                Ok(attrs) => match attributed_outcome(item, attrs, state.map) {
                    Ok(m) => Ok(BuildState { map: m, types_map_span: state.types_map_span }),
                    Err(e) => Err(e),
                },
            }
        },
    }
}

/// What the first `n` declarations do to the state of the builder; the first
/// diagnostic ends the build.
pub open spec fn items_outcome(
    items: Seq<Item>,
    n: nat,
    target_pointer_width: usize,
    start: BuildState,
) -> Result<BuildState, DiagnosticModel>
    decreases n,
{
    if n == 0 || n > items.len() {
        Ok(start)
    } else {
        match items_outcome(items, (n - 1) as nat, target_pointer_width, start) {
            Ok(state) => item_outcome(items[n - 1], target_pointer_width, state),
            Err(e) => Err(e),
        }
    }
}

/// The registry without types that holds the code templates `codes`.
pub open spec fn empty_registry(codes: Map<Seq<char>, Seq<char>>) -> TypeMapModel {
    TypeMapModel {
        nodes: Seq::empty(),
        edges: Seq::empty(),
        foreign_names: Map::empty(),
        rust_names: Map::empty(),
        utils_code: Seq::empty(),
        generic_edges: Seq::empty(),
        traits_usage_code: codes,
    }
}

/// The registry that the declarations `items` build for a platform with the
/// pointer width `target_pointer_width`, or the diagnostic that ends the build.
pub open spec fn parse_outcome(
    items: Seq<Item>,
    target_pointer_width: usize,
    codes: Map<Seq<char>, Seq<char>>,
) -> Result<TypeMapModel, DiagnosticModel> {
    match items_outcome(
        items,
        items.len(),
        target_pointer_width,
        BuildState { map: empty_registry(codes), types_map_span: None },
    ) {
        Ok(state) => Ok(state.map),
        Err(e) => Err(e),
    }
}

/// Once a declaration has ended the build, the diagnostic stands.
pub proof fn lemma_items_outcome_failed(
    items: Seq<Item>,
    n: nat,
    m: nat,
    target_pointer_width: usize,
    start: BuildState,
)
    requires
        n <= m <= items.len(),
        items_outcome(items, n, target_pointer_width, start) is Err,
    ensures
        items_outcome(items, m, target_pointer_width, start) == items_outcome(
            items,
            n,
            target_pointer_width,
            start,
        ),
    decreases m,
{
    if n < m {
        lemma_items_outcome_failed(items, n, (m - 1) as nat, target_pointer_width, start);
    }
}

/// Handles a declaration that may carry known attributes.
fn handle_attributed(item: &Item, target_pointer_width: usize, ret: &mut TypeMap) -> (r: Result<
    (),
    DiagnosticError,
>)
    requires
        old(ret).wf(),
        item_role(*item) != ItemRole::ForeignTypesMap,
        item_role(*item) != ItemRole::Support,
    ensures
        final(ret).wf(),
        final(ret)@.foreign_names == old(ret)@.foreign_names,
        forall|span: Option<Span>|
            item_outcome(
                *item,
                target_pointer_width,
                BuildState { map: old(ret)@, types_map_span: span },
            ) == match r {
                Ok(_) => Ok::<BuildState, DiagnosticModel>(
                    BuildState { map: final(ret)@, types_map_span: span },
                ),
                Err(e) => Err::<BuildState, DiagnosticModel>(e@),
            },
{
    if is_wrong_cfg_pointer_width(&item.attrs, target_pointer_width) {
        return Ok(());
    }
    let swig_attrs = match my_syn_attrs_to_hashmap(&item.attrs) {
        Ok(attrs) => attrs,
        Err(e) => {
            return Err(e);
        },
    };
    match &item.kind {
        ItemKind::Impl(item_impl) => {
            if item_impl_path_is(item_impl, SWIG_INTO_TRAIT, SWIG_FROM_TRAIT) {
                handle_into_from_impl(&swig_attrs, item_impl, item.span, item.tokens.as_str(), ret)
            } else {
                handle_deref_impl(&swig_attrs, item_impl, item.span, item.tokens.as_str(), ret)
            }
        },
        ItemKind::Trait { ident } => {
            if !swig_attrs.is_empty() {
                let conv_code_template = match get_swig_code_from_attrs(
                    item.span,
                    SWIG_CODE,
                    &swig_attrs,
                ) {
                    Ok(code) => code,
                    Err(e) => {
                        return Err(e);
                    },
                };
                ret.set_trait_code(ident.as_str(), String::from_str(conv_code_template));
            }
            ret.add_utils_code(item.tokens.clone());
            Ok(())
        },
        _ => {
            if swig_attrs.is_empty() {
                ret.add_utils_code(item.tokens.clone());
                Ok(())
            } else if swig_attrs.contains_key(SWIG_GENERIC_ARG) {
                handle_macro(&swig_attrs, item.span, item.tokens.as_str(), ret)
            } else {
                Err(plain_macro_diagnostic(&swig_attrs, item.span))
            }
        },
    }
}

/// Builds the registry from the declarations of a type map.
///
/// The declarations are read in their order. The module
/// `swig_foreign_types_map` gives the foreign type map and may occur once; a
/// declaration that is meant for another pointer width is left out; an
/// implementation of a cast or dereference trait and a conversion macro give
/// a generic rule or a fixed conversion; a trait with a `swig_code` attribute
/// gives the code template for its implementations; everything else is
/// passed through. The first diagnostic ends the build.
#[verifier::loop_isolation(false)]
pub fn do_parse(
    name: &str,
    items: &Vec<Item>,
    target_pointer_width: usize,
    traits_usage_code: NameMap<String>,
) -> (r: Result<TypeMap, DiagnosticError>)
    ensures
        match r {
            Ok(map) => parse_outcome(items@, target_pointer_width, code_map(traits_usage_code))
                == Ok::<TypeMapModel, DiagnosticModel>(map@) && map.wf(),
            Err(e) => parse_outcome(items@, target_pointer_width, code_map(traits_usage_code))
                == Err::<TypeMapModel, DiagnosticModel>(e@),
        },
{
    let ghost start = BuildState {
        map: empty_registry(code_map(traits_usage_code)),
        types_map_span: None,
    };
    let mut types_map_span: Option<Span> = None;
    let mut ret = TypeMap::new(traits_usage_code);
    let mut i: usize = 0;
    while i < items.len()
        invariant
            i <= items.len(),
            ret.wf(),
            types_map_span is None ==> ret@.foreign_names == Map::<Seq<char>, usize>::empty(),
            items_outcome(items@, i as nat, target_pointer_width, start) == Ok::<
                BuildState,
                DiagnosticModel,
            >(BuildState { map: ret@, types_map_span }),
        decreases items.len() - i,
    {
        let item = &items[i];
        let ghost before = BuildState { map: ret@, types_map_span };
        let step = match role_of(item) {
            ItemRole::ForeignTypesMap => {
                match types_map_span {
                    Some(span) => {
                        let mut message = String::from_str("Should only one ");
                        message.append(MOD_NAME_WITH_FOREIGN_TYPES);
                        message.append(" per types map");
                        let mut err = DiagnosticError::new(item.span, message.as_str());
                        err.span_note(span, "Previously defined here");
                        assert(err@.notes =~= seq![
                            SpanNoteModel { span, message: "Previously defined here"@ },
                        ]);
                        Err(err)
                    },
                    None => {
                        types_map_span = Some(item.span);
                        fill_foreign_types_map(&item.attrs, &mut ret)
                    },
                }
            },
            ItemRole::Support => {
                ret.add_utils_code(item.tokens.clone());
                Ok(())
            },
            _ => handle_attributed(item, target_pointer_width, &mut ret),
        };
        match step {
            Ok(_) => {
                assert(item_outcome(*item, target_pointer_width, before) == Ok::<
                    BuildState,
                    DiagnosticModel,
                >(BuildState { map: ret@, types_map_span }));
            },
            Err(e) => {
                proof {
                    assert(item_outcome(*item, target_pointer_width, before) == Err::<
                        BuildState,
                        DiagnosticModel,
                    >(e@));
                    lemma_items_outcome_failed(
                        items@,
                        (i + 1) as nat,
                        items@.len() as nat,
                        target_pointer_width,
                        start,
                    );
                }
                return Err(e);
            },
        }
        i += 1;
    }
    Ok(ret)
}

} // verus!
