//! The substitutor: putting bound types in place of the parameters of a pattern.

use crate::normalize::{normalize_ty_lifetimes, normalized};
use crate::subst_map::{bound_type, SubstEntry, TyParamsSubstMap};
use crate::type_expr::{
    args_model, segments_model, types_model, ArgModel, GenericArgument, PathSegment, SegmentModel,
    TypeExpr, TypeModel,
};
use vstd::prelude::*;

verus! {

/// The first `n` generic arguments, the type arguments substituted.
pub open spec fn substitute_args(args: Seq<ArgModel>, n: nat, map: Seq<SubstEntry>) -> Seq<
    ArgModel,
>
    decreases args, n,
{
    if n == 0 || n > args.len() {
        Seq::empty()
    } else {
        let before = substitute_args(args, (n - 1) as nat, map);
        match args[n - 1] {
            ArgModel::Type(t) => before.push(ArgModel::Type(substitute(t, map))),
            ArgModel::Binding { ident, ty } => before.push(
                ArgModel::Binding { ident, ty: substitute(ty, map) },
            ),
            other => before.push(other),
        }
    }
}

/// A path segment with its type arguments substituted.
pub open spec fn substitute_segment(s: SegmentModel, map: Seq<SubstEntry>) -> SegmentModel
    decreases s, 0nat,
{
    SegmentModel {
        ident: s.ident,
        arguments: match s.arguments {
            Some(args) => Some(substitute_args(args, args.len(), map)),
            None => None,
        },
    }
}

/// The first `n` path segments, each substituted.
pub open spec fn substitute_segments(segments: Seq<SegmentModel>, n: nat, map: Seq<SubstEntry>) -> Seq<
    SegmentModel,
>
    decreases segments, n,
{
    if n == 0 || n > segments.len() {
        Seq::empty()
    } else {
        substitute_segments(segments, (n - 1) as nat, map).push(
            substitute_segment(segments[n - 1], map),
        )
    }
}

/// The first `n` types, each substituted.
pub open spec fn substitute_types(types: Seq<TypeModel>, n: nat, map: Seq<SubstEntry>) -> Seq<
    TypeModel,
>
    decreases types, n,
{
    if n == 0 || n > types.len() {
        Seq::empty()
    } else {
        substitute_types(types, (n - 1) as nat, map).push(substitute(types[n - 1], map))
    }
}

/// The type with every occurrence of a bound parameter replaced by its
/// binding. A subtree is an occurrence of a parameter when its canonical name
/// is the parameter's name; what is put in its place is not looked into again.
/// Unbound parameters stay as they are.
pub open spec fn substitute(t: TypeModel, map: Seq<SubstEntry>) -> TypeModel
    decreases t, 0nat,
{
    match bound_type(map, normalized(t)) {
        Some(bound) => bound,
        None => match t {
            TypeModel::Path { global, segments } => TypeModel::Path {
                global,
                segments: substitute_segments(segments, segments.len(), map),
            },
            TypeModel::Reference { lifetime, mutable, elem } => TypeModel::Reference {
                lifetime,
                mutable,
                elem: Box::new(substitute(*elem, map)),
            },
            TypeModel::Slice { elem } => TypeModel::Slice { elem: Box::new(substitute(*elem, map)) },
            TypeModel::Tuple { elems } => TypeModel::Tuple {
                elems: substitute_types(elems, elems.len(), map),
            },
            TypeModel::Around { prefix, elem, suffix } => TypeModel::Around {
                prefix,
                elem: Box::new(substitute(*elem, map)),
                suffix,
            },
            TypeModel::Other { text } => TypeModel::Other { text },
        },
    }
}

/// Copies a list of generic arguments, the type arguments substituted.
#[verifier::loop_isolation(false)]
pub fn replace_all_types_in_args(args: &Vec<GenericArgument>, subst_map: &TyParamsSubstMap) -> (r:
    Vec<GenericArgument>)
    ensures
        args_model(r@) == substitute_args(args_model(args@), args@.len(), subst_map@),
    decreases args,
{
    let ghost model = args_model(args@);
    let mut out: Vec<GenericArgument> = Vec::new();
    let mut i: usize = 0;
    assert(args_model(out@) =~= substitute_args(model, 0, subst_map@));
    while i < args.len()
        invariant
            i <= args.len(),
            args_model(out@) == substitute_args(model, i as nat, subst_map@),
        decreases args.len() - i,
    {
        let ghost before = out@;
        assert(model[i as int] == args@[i as int]@);
        let arg = match &args[i] {
            GenericArgument::Type(t) => GenericArgument::Type(replace_all_types_with(t, subst_map)),
            GenericArgument::Binding { ident, ty } => GenericArgument::Binding {
                ident: ident.clone(),
                ty: replace_all_types_with(ty, subst_map),
            },
            other => other.clone_arg(),
        };
        out.push(arg);
        assert(args_model(out@) =~= args_model(before).push(out@[out@.len() - 1]@));
        i += 1;
    }
    out
}

/// Copies `in_ty` with every occurrence of a bound parameter of `subst_map`
/// replaced by the type bound to it.
#[verifier::loop_isolation(false)]
pub fn replace_all_types_with(in_ty: &TypeExpr, subst_map: &TyParamsSubstMap) -> (r: TypeExpr)
    ensures
        r@ == substitute(in_ty@, subst_map@),
    decreases in_ty,
{
    let ty_name = normalize_ty_lifetimes(in_ty);
    match subst_map.get(ty_name.as_str()) {
        Some(Some(subst)) => {
            return subst.clone();
        },
        _ => {},
    }
    match in_ty {
        TypeExpr::Path { global, segments } => {
            let ghost model = segments_model(segments@);
            let mut out: Vec<PathSegment> = Vec::new();
            let mut i: usize = 0;
            assert(segments_model(out@) =~= substitute_segments(model, 0, subst_map@));
            while i < segments.len()
                invariant
                    i <= segments.len(),
                    segments_model(out@) == substitute_segments(model, i as nat, subst_map@),
                decreases segments.len() - i,
            {
                let ghost before = out@;
                assert(model[i as int] == segments@[i as int]@);
                let seg = &segments[i];
                let arguments = match &seg.arguments {
                    Some(args) => {
                        assert(args_model(args@).len() == args@.len());
                        Some(replace_all_types_in_args(args, subst_map))
                    },
                    None => None,
                };
                out.push(PathSegment { ident: seg.ident.clone(), arguments });
                assert(out@[out@.len() - 1]@ == substitute_segment(model[i as int], subst_map@));
                assert(segments_model(out@) =~= segments_model(before).push(
                    out@[out@.len() - 1]@,
                ));
                i += 1;
            }
            assert(model.len() == segments@.len());
            TypeExpr::Path { global: *global, segments: out }
        },
        TypeExpr::Reference { lifetime, mutable, elem } => TypeExpr::Reference {
            lifetime: match lifetime {
                Some(l) => Some(l.clone()),
                None => None,
            },
            mutable: *mutable,
            elem: Box::new(replace_all_types_with(elem, subst_map)),
        },
        TypeExpr::Slice { elem } => TypeExpr::Slice {
            elem: Box::new(replace_all_types_with(elem, subst_map)),
        },
        TypeExpr::Tuple { elems } => {
            let ghost model = types_model(elems@);
            let mut out: Vec<TypeExpr> = Vec::new();
            let mut i: usize = 0;
            assert(types_model(out@) =~= substitute_types(model, 0, subst_map@));
            while i < elems.len()
                invariant
                    i <= elems.len(),
                    types_model(out@) == substitute_types(model, i as nat, subst_map@),
                decreases elems.len() - i,
            {
                let ghost before = out@;
                assert(model[i as int] == elems@[i as int]@);
                out.push(replace_all_types_with(&elems[i], subst_map));
                assert(types_model(out@) =~= types_model(before).push(out@[out@.len() - 1]@));
                i += 1;
            }
            assert(model.len() == elems@.len());
            TypeExpr::Tuple { elems: out }
        },
        TypeExpr::Around { prefix, elem, suffix } => TypeExpr::Around {
            prefix: prefix.clone(),
            elem: Box::new(replace_all_types_with(elem, subst_map)),
            suffix: suffix.clone(),
        },
        TypeExpr::Other { text } => TypeExpr::Other { text: text.clone() },
    }
}

} // verus!
