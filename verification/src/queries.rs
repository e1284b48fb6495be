//! Questions about the shape of a type: is it an option, a vector, a result,
//! a smart pointer or a slice, and of what.

use crate::rule::{bounds_satisfied, fresh_map, GenericTypeConv, RegisteredTypes};
use crate::rust_type::RustType;
use crate::source::Span;
use crate::substitute::{replace_all_types_with, substitute};
use crate::syntax::{lowered_type, parse_type, MAX_TYPE_DEPTH};
use crate::trait_bounds::{
    param_bounds, trait_bounds_of, trait_names, Generics, GenericsModel, TraitBoundModel, TypeParam,
    TypeParamModel,
};
use crate::type_expr::{generic_type, ident_type, type_model, types_model, TypeExpr, TypeModel};
use crate::unify::{is_second_subst_of_first, unify};
use vstd::prelude::*;
use vstd::string::*;

verus! {

/// The type parameters named `names`, none of them bounded.
pub open spec fn unbounded_params(names: Seq<Seq<char>>) -> Seq<TypeParamModel> {
    Seq::new(names.len(), |i: int| TypeParamModel { ident: names[i], bounds: Seq::empty() })
}

/// The generic parameters named `names`, without bounds and without a `where` clause.
pub open spec fn unbounded_generics(names: Seq<Seq<char>>) -> GenericsModel {
    GenericsModel {
        span: Span::spec_call_site(),
        type_params: unbounded_params(names),
        where_clause: None,
    }
}

/// What the rule from `from` to `to` over the unbounded parameters `params`
/// makes of `ty`: the destination with the parameters replaced by what
/// matching `from` against `ty` bound them to, where `ty` matches.
pub open spec fn rule_target(
    from: TypeModel,
    to: TypeModel,
    params: Seq<Seq<char>>,
    ty: TypeModel,
) -> Option<TypeModel> {
    let start = fresh_map(unbounded_params(params), params.len());
    let (matched, map) = unify(from, ty, start);
    if matched {
        Some(substitute(to, map))
    } else {
        None
    }
}

/// Parameters without bounds give no capability bounds.
pub proof fn lemma_unbounded_params_give_no_bounds(names: Seq<Seq<char>>, n: nat)
    requires
        n <= names.len(),
    ensures
        param_bounds(unbounded_params(names), n) == Seq::<TraitBoundModel>::empty(),
    decreases n,
{
    if n > 0 {
        lemma_unbounded_params_give_no_bounds(names, (n - 1) as nat);
        assert(trait_names(Seq::empty(), 0) == Set::<Seq<char>>::empty());
    }
}

impl Generics {
    /// Generic parameters named `names`, without bounds.
    pub fn unbounded(names: &Vec<String>) -> (r: Generics)
        ensures
            r@ == unbounded_generics(Seq::new(names@.len(), |i: int| names@[i]@)),
    {
        let mut type_params: Vec<TypeParam> = Vec::new();
        let mut i: usize = 0;
        while i < names.len()
            invariant
                i <= names.len(),
                type_params@.len() == i,
                forall|j: int|
                    0 <= j < i ==> (#[trigger] type_params@[j])@ == (TypeParamModel {
                        ident: names@[j]@,
                        bounds: Seq::empty(),
                    }),
            decreases names.len() - i,
        {
            let bounds = Vec::new();
            type_params.push(TypeParam { ident: names[i].clone(), bounds });
            assert(type_params@[i as int]@.bounds =~= Seq::empty());
            i += 1;
        }
        let r = Generics { span: Span::call_site(), type_params, where_clause: None };
        assert(r@.type_params =~= unbounded_params(Seq::new(names@.len(), |i: int| names@[i]@)));
        r
    }
}

/// Applies the rule from `from_ty` to `to_ty` over the unbounded parameters `names` to `ty`.
fn apply_simple_rule(from_ty: TypeExpr, to_ty: TypeExpr, names: &Vec<String>, ty: &RustType) -> (r:
    Option<TypeExpr>)
    ensures
        match r {
            Some(t) => rule_target(
                from_ty@,
                to_ty@,
                Seq::new(names@.len(), |i: int| names@[i]@),
                ty@.ty,
            ) == Some(t@),
            None => rule_target(
                from_ty@,
                to_ty@,
                Seq::new(names@.len(), |i: int| names@[i]@),
                ty@.ty,
            ) is None,
        },
{
    let ghost params = Seq::new(names@.len(), |i: int| names@[i]@);
    let generics = Generics::unbounded(names);
    let rule = GenericTypeConv::simple_new(from_ty, to_ty, generics);
    let others = RegisteredTypes::new();
    proof {
        lemma_unbounded_params_give_no_bounds(params, params.len());
        assert(trait_bounds_of(rule@.generic_params) =~= Seq::<TraitBoundModel>::empty());
        let start = fresh_map(unbounded_params(params), params.len());
        let map = unify(from_ty@, ty@.ty, start).1;
        assert(bounds_satisfied(map, Seq::<TraitBoundModel>::empty(), &others, map.len()));
    }
    match rule.is_conv_possible(ty, None, &others) {
        Some(found) => Some(found.0),
        None => None,
    }
}

/// One name as a list.
fn one_name(a: &str) -> (r: Vec<String>)
    ensures
        Seq::new(r@.len(), |i: int| r@[i]@) == seq![a@],
{
    let mut names: Vec<String> = Vec::new();
    names.push(String::from_str(a));
    assert(Seq::new(names@.len(), |i: int| names@[i]@) =~= seq![a@]);
    names
}

/// Two names as a list.
fn two_names(a: &str, b: &str) -> (r: Vec<String>)
    ensures
        Seq::new(r@.len(), |i: int| r@[i]@) == seq![a@, b@],
{
    let mut names: Vec<String> = Vec::new();
    names.push(String::from_str(a));
    names.push(String::from_str(b));
    assert(Seq::new(names@.len(), |i: int| names@[i]@) =~= seq![a@, b@]);
    names
}

/// One type as a list.
fn one_type(a: TypeExpr) -> (r: Vec<TypeExpr>)
    ensures
        types_model(r@) == seq![a@],
{
    let mut list: Vec<TypeExpr> = Vec::new();
    list.push(a);
    assert(types_model(list@) =~= seq![a@]);
    list
}

/// Two types as a list.
fn two_types(a: TypeExpr, b: TypeExpr) -> (r: Vec<TypeExpr>)
    ensures
        types_model(r@) == seq![a@, b@],
{
    let mut list: Vec<TypeExpr> = Vec::new();
    list.push(a);
    list.push(b);
    assert(types_model(list@) =~= seq![a@, b@]);
    list
}

/// The element type of a reference to a slice; a mutable reference counts
/// only where `accept_mutbl_slice` says so.
pub open spec fn slice_elem(ty: TypeModel, accept_mutbl_slice: bool) -> Option<TypeModel> {
    match ty {
        TypeModel::Reference { lifetime: _, mutable, elem } => if mutable && !accept_mutbl_slice {
            None
        } else {
            match *elem {
                TypeModel::Slice { elem: inner } => Some(*inner),
                _ => None,
            }
        },
        _ => None,
    }
}

/// The element type of `&[T]`, and of `&mut [T]` where `accept_mutbl_slice` says so.
pub fn if_type_slice_return_elem_type(ty: &TypeExpr, accept_mutbl_slice: bool) -> (r: Option<
    &TypeExpr,
>)
    ensures
        match r {
            Some(elem) => slice_elem(ty@, accept_mutbl_slice) == Some(elem@),
            None => slice_elem(ty@, accept_mutbl_slice) is None,
        },
{
    proof {
        reveal_with_fuel(type_model, 3);
    }
    match ty {
        TypeExpr::Reference { lifetime: _, mutable, elem } => {
            if *mutable && !accept_mutbl_slice {
                return None;
            }
            match &**elem {
                TypeExpr::Slice { elem: inner } => Some(&**inner),
                _ => None,
            }
        },
        _ => None,
    }
}

/// The `T` of `Option<T>`.
pub fn if_option_return_some_type(ty: &RustType) -> (r: Option<TypeExpr>)
    ensures
        match r {
            Some(t) => rule_target(
                generic_type("Option"@, seq![ident_type("T"@)]),
                ident_type("T"@),
                seq!["T"@],
                ty@.ty,
            ) == Some(t@),
            None => rule_target(
                generic_type("Option"@, seq![ident_type("T"@)]),
                ident_type("T"@),
                seq!["T"@],
                ty@.ty,
            ) is None,
        },
{
    let from_ty = TypeExpr::generic("Option", one_type(TypeExpr::ident("T")));
    apply_simple_rule(from_ty, TypeExpr::ident("T"), &one_name("T"), ty)
}

/// The `T` of `Vec<T>`.
pub fn if_vec_return_elem_type(ty: &RustType) -> (r: Option<TypeExpr>)
    ensures
        match r {
            Some(t) => rule_target(
                generic_type("Vec"@, seq![ident_type("T"@)]),
                ident_type("T"@),
                seq!["T"@],
                ty@.ty,
            ) == Some(t@),
            None => rule_target(
                generic_type("Vec"@, seq![ident_type("T"@)]),
                ident_type("T"@),
                seq!["T"@],
                ty@.ty,
            ) is None,
        },
{
    let from_ty = TypeExpr::generic("Vec", one_type(TypeExpr::ident("T")));
    apply_simple_rule(from_ty, TypeExpr::ident("T"), &one_name("T"), ty)
}

/// The pattern `Result<T, E>`.
pub open spec fn result_pattern() -> TypeModel {
    generic_type("Result"@, seq![ident_type("T"@), ident_type("E"@)])
}

/// The `T` and the `E` of `Result<T, E>`.
pub fn if_result_return_ok_err_types(ty: &RustType) -> (r: Option<(TypeExpr, TypeExpr)>)
    ensures
        match r {
            Some((ok_ty, err_ty)) => rule_target(
                result_pattern(),
                ident_type("T"@),
                seq!["T"@, "E"@],
                ty@.ty,
            ) == Some(ok_ty@) && rule_target(
                result_pattern(),
                ident_type("E"@),
                seq!["T"@, "E"@],
                ty@.ty,
            ) == Some(err_ty@),
            None => rule_target(result_pattern(), ident_type("T"@), seq!["T"@, "E"@], ty@.ty)
                is None,
        },
{
    let names = two_names("T", "E");
    let from_ty = TypeExpr::generic(
        "Result",
        two_types(TypeExpr::ident("T"), TypeExpr::ident("E")),
    );
    let ok_ty = match apply_simple_rule(from_ty.clone_type(), TypeExpr::ident("T"), &names, ty) {
        Some(t) => t,
        None => {
            return None;
        },
    };
    match apply_simple_rule(from_ty, TypeExpr::ident("E"), &names, ty) {
        Some(err_ty) => Some((ok_ty, err_ty)),
        None => None,
    }
}

/// The `T` of `Result<T, E>`, for a type that is not registered.
pub fn if_ty_result_return_ok_type(ty: &TypeExpr) -> (r: Option<TypeExpr>)
    ensures
        match r {
            Some(t) => rule_target(result_pattern(), ident_type("T"@), seq!["T"@, "E"@], ty@)
                == Some(t@),
            None => rule_target(result_pattern(), ident_type("T"@), seq!["T"@, "E"@], ty@) is None,
        },
{
    let result_ty = TypeExpr::generic(
        "Result",
        two_types(TypeExpr::ident("T"), TypeExpr::ident("E")),
    );
    let ok_ty = TypeExpr::ident("T");
    let names = two_names("T", "E");
    let rule = GenericTypeConv::simple_new(result_ty, ok_ty, Generics::unbounded(&names));
    let mut subst_map = rule.fresh_subst_map();
    if !is_second_subst_of_first(&rule.from_ty, ty, &mut subst_map) {
        return None;
    }
    Some(replace_all_types_with(&rule.to_ty, &subst_map))
}

/// The pattern `P<T>` for the smart pointer `P` named `name`, or the message
/// that says why `name` followed by `<T>` is not read as a type.
pub open spec fn smart_pointer_pattern(name: Seq<char>) -> Result<TypeModel, Seq<char>> {
    lowered_type(name + "<T>"@, MAX_TYPE_DEPTH as nat)
}

/// The `T` of `P<T>` for the smart pointer `P` named `smart_ptr_name`, where
/// `ty` is such a type. The name, followed by `<T>`, has to be a type.
pub fn check_if_smart_pointer_return_inner_type(ty: &RustType, smart_ptr_name: &str) -> (r: Option<
    TypeExpr,
>)
    requires
        smart_pointer_pattern(smart_ptr_name@) is Ok,
    ensures
        match r {
            Some(t) => rule_target(
                smart_pointer_pattern(smart_ptr_name@)->Ok_0,
                ident_type("T"@),
                seq!["T"@],
                ty@.ty,
            ) == Some(t@),
            None => rule_target(
                smart_pointer_pattern(smart_ptr_name@)->Ok_0,
                ident_type("T"@),
                seq!["T"@],
                ty@.ty,
            ) is None,
        },
{
    let mut text = String::from_str(smart_ptr_name);
    text.append("<T>");
    match parse_type(text.as_str()) {
        Ok(from_ty) => apply_simple_rule(from_ty, TypeExpr::ident("T"), &one_name("T"), ty),
        Err(_) => vstd::pervasive::unreached(),
    }
}

/// The `T` of `P<T>` for the smart pointer `P` named `smart_ptr_name`, for
/// any name: a name that, followed by `<T>`, is not read as a type gives the
/// message that says why.
pub fn smart_pointer_inner_type(ty: &RustType, smart_ptr_name: &str) -> (r: Result<
    Option<TypeExpr>,
    String,
>)
    ensures
        match smart_pointer_pattern(smart_ptr_name@) {
            Ok(pattern) => match r {
                Ok(Some(t)) => rule_target(pattern, ident_type("T"@), seq!["T"@], ty@.ty) == Some(
                    t@,
                ),
                Ok(None) => rule_target(pattern, ident_type("T"@), seq!["T"@], ty@.ty) is None,
                Err(_) => false,
            },
            Err(message) => r matches Err(found) && found@ == message,
        },
{
    let mut text = String::from_str(smart_ptr_name);
    text.append("<T>");
    match parse_type(text.as_str()) {
        Ok(_) => Ok(check_if_smart_pointer_return_inner_type(ty, smart_ptr_name)),
        Err(message) => Err(message),
    }
}

} // verus!
