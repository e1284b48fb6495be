//! The attributes that steer the registry builder: the platform guard and the
//! attributes that carry names, hints and code templates.

use crate::decl::{Attribute, Meta, NestedMeta};
use crate::name_map::NameMap;
use crate::source::{DiagnosticError, DiagnosticModel, SourceId, Span};
use crate::text::{parse_usize, parsed_usize, strip_quotes, unquoted};
use vstd::prelude::*;
use vstd::string::*;

verus! {

/// The attribute that carries the naming hint for the destination.
pub const SWIG_TO_FOREIGNER_HINT: &'static str = "swig_to_foreigner_hint";

/// The attribute that carries the naming hint for the source.
pub const SWIG_FROM_FOREIGNER_HINT: &'static str = "swig_from_foreigner_hint";

/// The attribute that carries a code template.
pub const SWIG_CODE: &'static str = "swig_code";

/// The attribute that declares a type parameter of a conversion macro.
pub const SWIG_GENERIC_ARG: &'static str = "swig_generic_arg";

/// The attribute that gives the source pattern of a conversion macro.
pub const SWIG_FROM_ATTR_NAME: &'static str = "swig_from";

/// The attribute that gives the destination pattern of a conversion macro.
pub const SWIG_TO_ATTR_NAME: &'static str = "swig_to";

/// The placeholder of a code template for the variable that is written.
pub const TO_VAR_TEMPLATE: &'static str = "{to_var}";

/// The placeholder of a code template for the variable that is read.
pub const FROM_VAR_TEMPLATE: &'static str = "{from_var}";

/// The pointer width that an attribute asks for: the attribute has to be
/// `cfg(target_pointer_width = W)` with nothing else between the parentheses,
/// and `W`, without its quotes, has to spell a number.
pub open spec fn named_width(a: Attribute) -> Option<usize> {
    if a.path@ != "cfg"@ {
        None
    } else {
        match a.meta {
            Ok(Meta::List { ident: _, nested }) => if nested@.len() == 1 {
                match nested@[0] {
                    NestedMeta::NameValue { ident, lit } => if ident@ == "target_pointer_width"@ {
                        parsed_usize(unquoted(lit.token@))
                    } else {
                        None
                    },
                    NestedMeta::Other => None,
                }
            } else {
                None
            },
            _ => None,
        }
    }
}

/// What the first of the first `n` attributes that asks for a pointer width
/// says of `target`: whether it asks for another width.
pub open spec fn width_verdict(attrs: Seq<Attribute>, n: nat, target: usize) -> Option<bool>
    decreases n,
{
    if n == 0 || n > attrs.len() {
        None
    } else {
        match width_verdict(attrs, (n - 1) as nat, target) {
            Some(v) => Some(v),
            None => match named_width(attrs[n - 1]) {
                Some(w) => Some(target != w),
                None => None,
            },
        }
    }
}

/// Once a verdict is reached, the attributes behind it do not change it.
pub proof fn lemma_width_verdict_stable(attrs: Seq<Attribute>, n: nat, m: nat, target: usize)
    requires
        n <= m <= attrs.len(),
        width_verdict(attrs, n, target) is Some,
    ensures
        width_verdict(attrs, m, target) == width_verdict(attrs, n, target),
    decreases m,
{
    if n < m {
        lemma_width_verdict_stable(attrs, n, (m - 1) as nat, target);
    }
}

/// Whether the declaration with the attributes `attrs` is meant for a
/// platform with another pointer width than `target_pointer_width`. The
/// first attribute that asks for a width decides; without one, no.
pub fn is_wrong_cfg_pointer_width(attrs: &Vec<Attribute>, target_pointer_width: usize) -> (r: bool)
    ensures
        r == (width_verdict(attrs@, attrs@.len(), target_pointer_width) == Some(true)),
{
    let mut i: usize = 0;
    while i < attrs.len()
        invariant
            i <= attrs.len(),
            width_verdict(attrs@, i as nat, target_pointer_width) is None,
        decreases attrs.len() - i,
    {
        let a = &attrs[i];
        if a.path == String::from_str("cfg") {
            match &a.meta {
                Ok(Meta::List { ident: _, nested }) => {
                    if nested.len() == 1 {
                        match &nested[0] {
                            NestedMeta::NameValue { ident, lit } => {
                                if *ident == String::from_str("target_pointer_width") {
                                    let val = strip_quotes(lit.token.as_str());
                                    match parse_usize(val.as_str()) {
                                        Some(width) => {
                                            proof {
                                                lemma_width_verdict_stable(
                                                    attrs@,
                                                    (i + 1) as nat,
                                                    attrs@.len() as nat,
                                                    target_pointer_width,
                                                );
                                            }
                                            return target_pointer_width != width;
                                        },
                                        None => {},
                                    }
                                }
                            },
                            NestedMeta::Other => {},
                        }
                    }
                },
                _ => {},
            }
        }
        i += 1;
    }
    false
}

/// The value of an attribute and the place where the attribute stands.
pub struct AttrValue {
    pub value: String,
    pub span: Span,
}

/// Mathematical model of [`AttrValue`].
pub struct AttrValueModel {
    pub value: Seq<char>,
    pub span: Span,
}

impl View for AttrValue {
    type V = AttrValueModel;

    open spec fn view(&self) -> AttrValueModel {
        AttrValueModel { value: self.value@, span: self.span }
    }
}

/// The models of a list of attribute values.
pub open spec fn values_model(values: Seq<AttrValue>) -> Seq<AttrValueModel> {
    Seq::new(values.len(), |i: int| values[i]@)
}

/// The attributes of a declaration that the builder knows, by name: for each
/// name the values of the attributes of that name, in their order.
pub struct MyAttrs {
    map: NameMap<Vec<AttrValue>>,
}

impl View for MyAttrs {
    type V = Map<Seq<char>, Seq<AttrValueModel>>;

    closed spec fn view(&self) -> Map<Seq<char>, Seq<AttrValueModel>> {
        Map::new(
            |name: Seq<char>| self.map.find(name) is Some,
            |name: Seq<char>| values_model(self.map.find(name)->0@),
        )
    }
}

/// Every name of the table has at least one value.
pub open spec fn no_empty_list(table: Map<Seq<char>, Seq<AttrValueModel>>) -> bool {
    forall|name: Seq<char>| table.contains_key(name) ==> (#[trigger] table[name]).len() > 0
}

/// The table with one more value under `name`.
pub open spec fn with_value(
    table: Map<Seq<char>, Seq<AttrValueModel>>,
    name: Seq<char>,
    value: AttrValueModel,
) -> Map<Seq<char>, Seq<AttrValueModel>> {
    if table.contains_key(name) {
        table.insert(name, table[name].push(value))
    } else {
        table.insert(name, seq![value])
    }
}

impl MyAttrs {
    /// The invariant of the table: every name has at least one value.
    pub open spec fn wf(&self) -> bool {
        no_empty_list(self@)
    }

    /// A table without attributes.
    pub fn new() -> (r: MyAttrs)
        ensures
            r@ == Map::<Seq<char>, Seq<AttrValueModel>>::empty(),
            r.wf(),
    {
        let r = MyAttrs { map: NameMap::new() };
        assert(r@ =~= Map::<Seq<char>, Seq<AttrValueModel>>::empty());
        r
    }

    /// The values of the attributes named `name`.
    pub fn get(&self, name: &str) -> (r: Option<&Vec<AttrValue>>)
        ensures
            match r {
                Some(values) => self@.contains_key(name@) && self@[name@] == values_model(values@),
                None => !self@.contains_key(name@),
            },
    {
        self.map.get(name)
    }

    /// Whether there is an attribute named `name`.
    pub fn contains_key(&self, name: &str) -> (r: bool)
        ensures
            r == self@.contains_key(name@),
    {
        self.map.contains_key(name)
    }

    /// Whether there is no attribute.
    pub fn is_empty(&self) -> (r: bool)
        ensures
            r == (self@ == Map::<Seq<char>, Seq<AttrValueModel>>::empty()),
    {
        let r = self.map.is_empty();
        proof {
            if r {
                assert(self@ =~= Map::<Seq<char>, Seq<AttrValueModel>>::empty());
            } else {
                let name = choose|name: Seq<char>| self.map.find(name) is Some;
                assert(self@.contains_key(name));
            }
        }
        r
    }

    /// Whether all attributes are named `name`, and there is at least one.
    pub fn has_only(&self, name: &str) -> (r: bool)
        ensures
            r == (self@.dom() == set![name@]),
    {
        let r = self.map.has_only(name);
        proof {
            if r {
                assert(self@.dom() =~= set![name@]);
            } else {
                if self.map.find(name@) is Some {
                    let other = choose|other: Seq<char>|
                        other != name@ && self.map.find(other) is Some;
                    assert(self@.dom().contains(other));
                } else {
                    assert(!self@.dom().contains(name@));
                    assert(set![name@].contains(name@));
                }
            }
        }
        r
    }

    /// The number of attribute names.
    pub fn len(&self) -> (r: usize)
        ensures
            r == self.count(),
    {
        self.map.len()
    }

    /// The number of attribute names.
    pub closed spec fn count(&self) -> nat {
        self.map.count()
    }

    /// The name at `index`, in the order in which the names were first met,
    /// and the values of the attributes of that name.
    pub fn entry(&self, index: usize) -> (r: Option<(&str, &Vec<AttrValue>)>)
        ensures
            match r {
                Some((name, values)) => index < self.count() && self@.contains_key(name@)
                    && self@[name@] == values_model(values@),
                None => index >= self.count(),
            },
    {
        if index < self.map.len() {
            let name = self.map.entry(index).0;
            match self.map.get(name) {
                Some(values) => Some((name, values)),
                None => vstd::pervasive::unreached(),
            }
        } else {
            None
        }
    }

    /// Adds the value of one more attribute named `name`.
    pub fn add(&mut self, name: &str, value: String, span: Span)
        ensures
            final(self)@ == with_value(old(self)@, name@, AttrValueModel { value: value@, span }),
            old(self).wf() ==> final(self).wf(),
    {
        let mut list: Vec<AttrValue> = Vec::new();
        match self.map.get(name) {
            Some(values) => {
                let mut i: usize = 0;
                while i < values.len()
                    invariant
                        i <= values.len(),
                        list@.len() == i,
                        forall|j: int| 0 <= j < i ==> list@[j]@ == values@[j]@,
                    decreases values.len() - i,
                {
                    list.push(AttrValue { value: values[i].value.clone(), span: values[i].span });
                    i += 1;
                }
                assert(values_model(list@) =~= values_model(values@));
            },
            None => {
                assert(values_model(list@) =~= Seq::<AttrValueModel>::empty());
            },
        }
        let ghost before = values_model(list@);
        list.push(AttrValue { value, span });
        assert(values_model(list@) =~= before.push(AttrValueModel { value: value@, span }));
        self.map.insert(name, list);
        assert(self@ =~= with_value(old(self)@, name@, AttrValueModel { value: value@, span }));
    }
}

/// Whether `name` is one of the attributes that the builder knows.
pub open spec fn is_known_swig_attr(name: Seq<char>) -> bool {
    name == SWIG_TO_FOREIGNER_HINT@ || name == SWIG_FROM_FOREIGNER_HINT@ || name == SWIG_CODE@
        || name == SWIG_GENERIC_ARG@ || name == SWIG_FROM_ATTR_NAME@ || name == SWIG_TO_ATTR_NAME@
}

/// Whether the attribute path `name` is one that the builder knows.
pub fn known_swig_attr(name: &String) -> (r: bool)
    ensures
        r == is_known_swig_attr(name@),
{
    *name == String::from_str(SWIG_TO_FOREIGNER_HINT) || *name == String::from_str(
        SWIG_FROM_FOREIGNER_HINT,
    ) || *name == String::from_str(SWIG_CODE) || *name == String::from_str(SWIG_GENERIC_ARG)
        || *name == String::from_str(SWIG_FROM_ATTR_NAME) || *name == String::from_str(
        SWIG_TO_ATTR_NAME,
    )
}

/// The diagnostic with the given span and message, and nothing else.
pub open spec fn plain_diagnostic(span: Span, message: Seq<char>) -> DiagnosticModel {
    DiagnosticModel {
        src_id: SourceId { id: None },
        span,
        message,
        notes: Seq::empty(),
        internal: false,
    }
}

/// What one attribute adds to the table of known attributes: nothing where
/// the builder does not know the attribute's name; its string value under its
/// name where it has the form `name = "value"`; a diagnostic otherwise.
pub open spec fn with_attribute(table: Map<Seq<char>, Seq<AttrValueModel>>, a: Attribute) -> Result<
    Map<Seq<char>, Seq<AttrValueModel>>,
    DiagnosticModel,
> {
    if !is_known_swig_attr(a.path@) {
        Ok(table)
    } else {
        match a.meta {
            Err(e) => Err(e.diagnostic()),
            Ok(Meta::NameValue { ident, lit }) => match lit.str_value {
                Some(value) => Ok(
                    with_value(table, ident@, AttrValueModel { value: value@, span: a.span }),
                ),
                None => Err(plain_diagnostic(a.span, "Invalid attribute"@)),
            },
            Ok(_) => Err(plain_diagnostic(a.span, "Invalid attribute"@)),
        }
    }
}

/// The table of the known attributes among the first `n` attributes, or the
/// diagnostic for the first of them that is malformed.
pub open spec fn swig_attrs_of(attrs: Seq<Attribute>, n: nat) -> Result<
    Map<Seq<char>, Seq<AttrValueModel>>,
    DiagnosticModel,
>
    decreases n,
{
    if n == 0 || n > attrs.len() {
        Ok(Map::empty())
    } else {
        match swig_attrs_of(attrs, (n - 1) as nat) {
            Ok(table) => with_attribute(table, attrs[n - 1]),
            Err(e) => Err(e),
        }
    }
}

/// Once an attribute is found malformed, the diagnostic stands.
pub proof fn lemma_swig_attrs_failed(attrs: Seq<Attribute>, n: nat, m: nat)
    requires
        n <= m <= attrs.len(),
        swig_attrs_of(attrs, n) is Err,
    ensures
        swig_attrs_of(attrs, m) == swig_attrs_of(attrs, n),
    decreases m,
{
    if n < m {
        lemma_swig_attrs_failed(attrs, n, (m - 1) as nat);
    }
}

/// Collects the attributes that the builder knows into a table by name.
pub fn my_syn_attrs_to_hashmap(attrs: &Vec<Attribute>) -> (r: Result<MyAttrs, DiagnosticError>)
    ensures
        match r {
            Ok(table) => swig_attrs_of(attrs@, attrs@.len()) == Ok::<
                Map<Seq<char>, Seq<AttrValueModel>>,
                DiagnosticModel,
            >(table@) && table.wf(),
            Err(e) => swig_attrs_of(attrs@, attrs@.len()) == Err::<
                Map<Seq<char>, Seq<AttrValueModel>>,
                DiagnosticModel,
            >(e@),
        },
{
    let mut ret = MyAttrs::new();
    let mut i: usize = 0;
    while i < attrs.len()
        invariant
            i <= attrs.len(),
            swig_attrs_of(attrs@, i as nat) == Ok::<
                Map<Seq<char>, Seq<AttrValueModel>>,
                DiagnosticModel,
            >(ret@),
            ret.wf(),
        decreases attrs.len() - i,
    {
        let a = &attrs[i];
        if known_swig_attr(&a.path) {
            let failure = match &a.meta {
                Err(e) => Some(e.to_diagnostic()),
                Ok(Meta::NameValue { ident, lit }) => match &lit.str_value {
                    Some(value) => {
                        ret.add(ident.as_str(), value.clone(), a.span);
                        None
                    },
                    None => Some(DiagnosticError::new(a.span, "Invalid attribute")),
                },
                Ok(_) => Some(DiagnosticError::new(a.span, "Invalid attribute")),
            };
            match failure {
                Some(e) => {
                    proof {
                        lemma_swig_attrs_failed(attrs@, (i + 1) as nat, attrs@.len() as nat);
                    }
                    return Err(e);
                },
                None => {},
            }
        }
        i += 1;
    }
    Ok(ret)
}

} // verus!
