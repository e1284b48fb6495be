//! Conversion rules: a source pattern, a destination pattern and the test that
//! decides whether a rule applies to a type.

use crate::name_map::NameMap;
use crate::names::{
    make_unique_typename, make_unique_typename_if_need, smol_as_str, smol_chars, smol_new,
    unique_typename, unique_typename_if_need,
};
use crate::normalize::{normalize_ty_lifetimes, normalized};
use crate::rust_type::{RustType, RustTypeModel};
use crate::source::SourceId;
use crate::subst_map::{insert_entry, SubstEntry, TyParamsSubstMap};
use crate::substitute::{replace_all_types_with, substitute};
use crate::text::{replaced, same_text, text_replace};
use crate::trait_bounds::{
    bound_items, first_bound_on, get_trait_bounds, trait_bounds_of, Generics, GenericsModel,
    TraitBoundModel, TypeParamModel,
};
use crate::type_expr::{TypeExpr, TypeModel};
use crate::unify::{is_second_subst_of_first, unify};
use smol_str::SmolStr;
use vstd::prelude::*;
use vstd::string::*;

verus! {

/// A source of registered types, asked by name.
pub trait TypeLookup {
    /// The type registered under `name`, if there is one.
    spec fn known(&self, name: Seq<char>) -> Option<RustTypeModel>;

    /// Looks a type up by its name.
    fn lookup(&self, name: &str) -> (r: Option<&RustType>)
        ensures
            match r {
                Some(t) => self.known(name@) == Some(t@),
                None => self.known(name@) is None,
            },
    ;
}

/// A table of types, each registered under a name. A name that is
/// registered again goes to the later type.
pub struct RegisteredTypes {
    types: NameMap<RustType>,
}

impl RegisteredTypes {
    /// A table without types.
    pub fn new() -> (r: RegisteredTypes)
        ensures
            forall|name: Seq<char>| r.known(name) is None,
    {
        RegisteredTypes { types: NameMap::new() }
    }

    /// Registers `ty` under `name`.
    pub fn add(&mut self, name: &str, ty: RustType)
        ensures
            forall|other: Seq<char>|
                final(self).known(other) == if other == name@ {
                    Some(ty@)
                } else {
                    old(self).known(other)
                },
    {
        self.types.insert(name, ty);
    }
}

impl TypeLookup for RegisteredTypes {
    closed spec fn known(&self, name: Seq<char>) -> Option<RustTypeModel> {
        match self.types.find(name) {
            Some(ty) => Some(ty@),
            None => None,
        }
    }

    fn lookup(&self, name: &str) -> (r: Option<&RustType>) {
        self.types.get(name)
    }
}

/// A conversion rule: how types that match the source pattern are turned into
/// the destination pattern with the same types put in for the parameters.
pub struct GenericTypeConv {
    pub src_id: SourceId,
    pub from_ty: TypeExpr,
    pub to_ty: TypeExpr,
    pub code_template: String,
    /// The declaration that the rule was read from, as its token text.
    pub dependency: Option<String>,
    pub generic_params: Generics,
    pub to_foreigner_hint: Option<String>,
    pub from_foreigner_hint: Option<String>,
}

/// Mathematical model of [`GenericTypeConv`].
pub struct RuleModel {
    pub src_id: SourceId,
    pub from_ty: TypeModel,
    pub to_ty: TypeModel,
    pub code_template: Seq<char>,
    pub dependency: Option<Seq<char>>,
    pub generic_params: GenericsModel,
    pub to_foreigner_hint: Option<Seq<char>>,
    pub from_foreigner_hint: Option<Seq<char>>,
}

/// The model of an optional text.
pub open spec fn text_model(text: Option<String>) -> Option<Seq<char>> {
    match text {
        Some(t) => Some(t@),
        None => None,
    }
}

impl View for GenericTypeConv {
    type V = RuleModel;

    open spec fn view(&self) -> RuleModel {
        RuleModel {
            src_id: self.src_id,
            from_ty: self.from_ty@,
            to_ty: self.to_ty@,
            code_template: self.code_template@,
            dependency: text_model(self.dependency),
            generic_params: self.generic_params@,
            to_foreigner_hint: text_model(self.to_foreigner_hint),
            from_foreigner_hint: text_model(self.from_foreigner_hint),
        }
    }
}

/// The map that a rule starts from: one unbound entry for each of the first
/// `n` type parameters, in their order.
pub open spec fn fresh_map(params: Seq<TypeParamModel>, n: nat) -> Seq<SubstEntry>
    decreases n,
{
    if n == 0 || n > params.len() {
        Seq::empty()
    } else {
        insert_entry(fresh_map(params, (n - 1) as nat), params[n - 1].ident, None)
    }
}

/// Whether what `entry` is bound to has the capabilities that the first bound
/// on the entry's parameter asks for. An unbound entry, and one whose parameter
/// has no bound, asks for nothing; a bound type that is not registered has no
/// capability.
pub open spec fn bound_satisfied<L: TypeLookup>(
    entry: SubstEntry,
    bounds: Seq<TraitBoundModel>,
    others: &L,
) -> bool {
    match entry.ty {
        None => true,
        Some(val) => match first_bound_on(bounds, entry.ident, bounds.len()) {
            None => true,
            Some(idx) => match others.known(normalized(val)) {
                Some(registered) => bounds[idx as int].trait_names.subset_of(
                    registered.implements,
                ),
                None => false,
            },
        },
    }
}

/// Whether each of the first `n` entries satisfies its bound.
pub open spec fn bounds_satisfied<L: TypeLookup>(
    map: Seq<SubstEntry>,
    bounds: Seq<TraitBoundModel>,
    others: &L,
    n: nat,
) -> bool {
    forall|i: int| 0 <= i < n && i < map.len() ==> bound_satisfied(#[trigger] map[i], bounds, others)
}

/// Whether one of the first `n` entries is unbound.
pub open spec fn has_unbound(map: Seq<SubstEntry>, n: nat) -> bool {
    exists|i: int| 0 <= i < n && i < map.len() && (#[trigger] map[i]).ty is None
}

/// The foreign name that a naming hint stands for: the hint with the name of
/// the rule's parameter replaced by the canonical name of what the parameter
/// is bound to. There is none while the parameter is unbound.
pub open spec fn hint_name(hint: Seq<char>, map: Seq<SubstEntry>) -> Option<Seq<char>> {
    if map.len() > 0 {
        match map[0].ty {
            Some(val) => Some(replaced(hint, map[0].ident, normalized(val))),
            None => None,
        }
    } else {
        None
    }
}

/// The map after the source pattern was matched and, where parameters were
/// left unbound and a goal is given, the destination pattern was matched
/// against the goal. A mismatch with the goal is no failure: what it bound stays.
pub open spec fn resolved_map(rule: RuleModel, goal: Option<RustTypeModel>, map: Seq<SubstEntry>) -> Seq<
    SubstEntry,
> {
    match goal {
        Some(g) => if has_unbound(map, map.len()) {
            unify(rule.to_ty, g.ty, map).1
        } else {
            map
        },
        None => map,
    }
}

/// Whether the "from" naming hint of the rule lets the type `ty` in: the
/// type's unique name has to be the canonical name of the source pattern made
/// unique by the foreign name that the hint stands for.
pub open spec fn from_hint_admits(rule: RuleModel, ty: RustTypeModel, map: Seq<SubstEntry>) -> bool {
    match rule.from_foreigner_hint {
        Some(hint) => match hint_name(hint, map) {
            Some(foreign) => ty.normalized_name == unique_typename(
                normalized(rule.from_ty),
                foreign,
            ),
            None => true,
        },
        None => true,
    }
}

/// The suffix that the "to" naming hint of the rule gives to the destination's name.
pub open spec fn to_hint_suffix(rule: RuleModel, map: Seq<SubstEntry>) -> Option<Seq<char>> {
    match rule.to_foreigner_hint {
        Some(hint) => hint_name(hint, map),
        None => None,
    }
}

/// The applicability test: whether `rule` applies to `ty`, and if so the
/// destination type and its unique name.
pub open spec fn conv_possible<L: TypeLookup>(
    rule: RuleModel,
    ty: RustTypeModel,
    goal: Option<RustTypeModel>,
    others: &L,
) -> Option<(TypeModel, Seq<char>)> {
    let params = rule.generic_params.type_params;
    let (matched, bound) = unify(rule.from_ty, ty.ty, fresh_map(params, params.len()));
    if !matched {
        None
    } else if !bounds_satisfied(bound, trait_bounds_of(rule.generic_params), others, bound.len()) {
        None
    } else {
        let map = resolved_map(rule, goal, bound);
        if !from_hint_admits(rule, ty, map) {
            None
        } else {
            let to_ty = substitute(rule.to_ty, map);
            Some((to_ty, unique_typename_if_need(normalized(to_ty), to_hint_suffix(rule, map))))
        }
    }
}

/// The model of an optional registered type.
pub open spec fn goal_model(goal: Option<&RustType>) -> Option<RustTypeModel> {
    match goal {
        Some(g) => Some(g@),
        None => None,
    }
}

/// The invariant of a rule: one that has a naming hint has exactly one type parameter.
pub open spec fn rule_wf(rule: RuleModel) -> bool {
    (rule.to_foreigner_hint is Some || rule.from_foreigner_hint is Some)
        ==> rule.generic_params.type_params.len() == 1
}

impl GenericTypeConv {
    /// The invariant of a rule: one that has a naming hint has exactly one
    /// type parameter.
    pub open spec fn wf(&self) -> bool {
        rule_wf(self@)
    }

    /// A rule from `from_ty` to `to_ty` without code and without hints.
    pub fn simple_new(from_ty: TypeExpr, to_ty: TypeExpr, generic_params: Generics) -> (r:
        GenericTypeConv)
        ensures
            r@ == (RuleModel {
                src_id: SourceId { id: None },
                from_ty: from_ty@,
                to_ty: to_ty@,
                code_template: Seq::empty(),
                dependency: None,
                generic_params: generic_params@,
                to_foreigner_hint: None,
                from_foreigner_hint: None,
            }),
            r.wf(),
    {
        GenericTypeConv {
            from_ty,
            to_ty,
            code_template: String::new(),
            dependency: None,
            generic_params,
            to_foreigner_hint: None,
            from_foreigner_hint: None,
            src_id: SourceId::none(),
        }
    }

    /// The map that the applicability test starts from.
    pub fn fresh_subst_map(&self) -> (r: TyParamsSubstMap)
        ensures
            r@ == fresh_map(self@.generic_params.type_params, self@.generic_params.type_params.len()),
            r.wf(),
            r@.len() <= self.generic_params.type_params@.len(),
            self.generic_params.type_params@.len() == 1 ==> r@.len() == 1,
    {
        let ghost params = self@.generic_params.type_params;
        let mut subst_map = TyParamsSubstMap::new();
        let mut i: usize = 0;
        while i < self.generic_params.type_params.len()
            invariant
                i <= self.generic_params.type_params.len(),
                params == self@.generic_params.type_params,
                subst_map@ == fresh_map(params, i as nat),
                subst_map.wf(),
                subst_map@.len() <= i,
                i == 1 ==> subst_map@.len() == 1,
            decreases self.generic_params.type_params.len() - i,
        {
            assert(params[i as int] == self.generic_params.type_params@[i as int]@);
            subst_map.insert(self.generic_params.type_params[i].ident.as_str(), None);
            i += 1;
        }
        subst_map
    }

    /// Decides whether the rule applies to `ty`, and if it does gives the
    /// destination type and its unique name.
    ///
    /// The source pattern is matched against `ty`. Every parameter that this
    /// binds has to satisfy its capability bound, for which the bound type is
    /// looked up in `others` by its canonical name. Parameters that stay
    /// unbound are resolved against `goal_ty` where one is given. A "from"
    /// hint admits only the type whose unique name carries the foreign name
    /// that the hint stands for; a "to" hint gives the destination's name its suffix.
    #[verifier::loop_isolation(false)]
    pub fn is_conv_possible<L: TypeLookup>(
        &self,
        ty: &RustType,
        goal_ty: Option<&RustType>,
        others: &L,
    ) -> (r: Option<(TypeExpr, SmolStr)>)
        requires
            self.wf(),
        ensures
            match r {
                Some((to_ty, name)) => conv_possible(self@, ty@, goal_model(goal_ty), others)
                    == Some((to_ty@, smol_chars(name))),
                None => conv_possible(self@, ty@, goal_model(goal_ty), others) is None,
            },
    {
        let mut subst_map = self.fresh_subst_map();
        let ghost fresh = subst_map@;
        if !is_second_subst_of_first(&self.from_ty, &ty.ty, &mut subst_map) {
            return None;
        }
        assert(unify(self@.from_ty, ty@.ty, fresh) == (true, subst_map@));
        let trait_bounds = get_trait_bounds(&self.generic_params);
        let ghost bounds = bound_items(trait_bounds);
        let ghost bound = subst_map@;
        let mut has_unbinded = false;
        let mut i: usize = 0;
        while i < subst_map.len()
            invariant
                i <= subst_map@.len(),
                subst_map@ == bound,
                bounds == bound_items(trait_bounds),
                bounds_satisfied(bound, bounds, others, i as nat),
                has_unbinded == has_unbound(bound, i as nat),
            decreases subst_map@.len() - i,
        {
            match subst_map.binding(i) {
                Some(val) => {
                    match trait_bounds.position(subst_map.ident(i)) {
                        Some(idx) => {
                            let required = trait_bounds.get(idx);
                            let val_name = normalize_ty_lifetimes(val);
                            let satisfied = match (others.lookup(val_name.as_str()), required) {
                                (Some(rt), Some(b)) => rt.implements.contains_subset(&b.trait_names),
                                _ => false,
                            };
                            if !satisfied {
                                assert(!bound_satisfied(bound[i as int], bounds, others));
                                assert(!bounds_satisfied(bound, bounds, others, bound.len()));
                                return None;
                            }
                        },
                        None => {},
                    }
                },
                None => {
                    has_unbinded = true;
                },
            }
            i += 1;
        }
        if has_unbinded {
            match goal_ty {
                Some(goal) => {
                    let _ = is_second_subst_of_first(&self.to_ty, &goal.ty, &mut subst_map);
                },
                None => {},
            }
        }
        assert(subst_map@ == resolved_map(self@, goal_model(goal_ty), bound));
        match &self.from_foreigner_hint {
            Some(from_foreigner_hint) => {
                if subst_map.len() > 0 {
                    match subst_map.binding(0) {
                        Some(val) => {
                            let val_name = normalize_ty_lifetimes(val);
                            let foreign_name = text_replace(
                                from_foreigner_hint.as_str(),
                                subst_map.ident(0),
                                val_name.as_str(),
                            );
                            let clean_from_ty = normalize_ty_lifetimes(&self.from_ty);
                            let expected = make_unique_typename(
                                clean_from_ty.as_str(),
                                foreign_name.as_str(),
                            );
                            if !same_text(smol_as_str(&ty.normalized_name), expected.as_str()) {
                                return None;
                            }
                        },
                        None => {},
                    }
                }
            },
            None => {},
        }
        let to_ty = replace_all_types_with(&self.to_ty, &subst_map);
        let to_suffix = match &self.to_foreigner_hint {
            Some(to_foreigner_hint) => {
                if subst_map.len() > 0 {
                    match subst_map.binding(0) {
                        Some(val) => {
                            let val_name = normalize_ty_lifetimes(val);
                            Some(
                                text_replace(
                                    to_foreigner_hint.as_str(),
                                    subst_map.ident(0),
                                    val_name.as_str(),
                                ),
                            )
                        },
                        None => None,
                    }
                } else {
                    None
                }
            },
            None => None,
        };
        let normalized_name = make_unique_typename_if_need(normalize_ty_lifetimes(&to_ty), to_suffix);
        Some((to_ty, smol_new(normalized_name.as_str())))
    }
}

} // verus!
