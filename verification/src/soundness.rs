//! Soundness of unification: what a successful match says of the pattern
//! with the bound types put in.

use crate::laws::{
    agree, args_agree, args_avoid, avoids, law_unification_without_parameters,
    law_unify_only_binds, lemma_entry_index_range, lemma_ident_type_name,
    lemma_only_binds_transitive, lemma_unifies_with_itself, lemma_unify_arg_only_binds,
    lemma_unify_args_only_binds, lemma_unify_segments_only_binds, lemma_unify_types_only_binds,
    only_binds, path_args_agree, segments_agree, segments_avoid, types_agree, types_avoid,
};
use crate::normalize::normalized;
use crate::rule::fresh_map;
use crate::subst_map::{bind_entry, bound_type, entry_index, position_of, SubstEntry};
use crate::trait_bounds::TypeParamModel;
use crate::substitute::{
    substitute, substitute_args, substitute_segment, substitute_segments, substitute_types,
};
use crate::type_expr::{ident_type, ArgModel, SegmentModel, TypeModel};
use crate::unify::{
    unbound_parameter, unify, unify_arg, unify_args, unify_path_args, unify_segments, unify_types,
};
use vstd::prelude::*;

verus! {

/// Whether `name` is the name of a parameter of the map.
pub open spec fn is_param(base: Seq<SubstEntry>, name: Seq<char>) -> bool {
    entry_index(base, name) is Some
}

/// Whether a generic argument names no parameter.
pub open spec fn arg_closed(a: ArgModel, base: Seq<SubstEntry>) -> bool
    decreases a, 0nat,
{
    match a {
        ArgModel::Type(t) => !is_param(base, normalized(t)) && closed(t, base),
        _ => true,
    }
}

/// Whether a path segment names no parameter.
pub open spec fn segment_closed(s: SegmentModel, base: Seq<SubstEntry>) -> bool
    decreases s, 0nat,
{
    match s.arguments {
        Some(args) => forall|k: int| 0 <= k < args.len() ==> arg_closed(#[trigger] args[k], base),
        None => true,
    }
}

/// Whether a type names no parameter of the map: no path of one segment
/// goes by the name of a parameter, and no type argument does.
pub open spec fn closed(t: TypeModel, base: Seq<SubstEntry>) -> bool
    decreases t, 0nat,
{
    match t {
        TypeModel::Path { global: _, segments } => (segments.len() == 1 ==> !is_param(
            base,
            segments[0].ident,
        )) && forall|k: int|
            0 <= k < segments.len() ==> segment_closed(#[trigger] segments[k], base),
        TypeModel::Reference { lifetime: _, mutable: _, elem } => closed(*elem, base),
        TypeModel::Slice { elem } => closed(*elem, base),
        TypeModel::Tuple { elems } => forall|k: int|
            0 <= k < elems.len() ==> closed(#[trigger] elems[k], base),
        TypeModel::Around { .. } => true,
        TypeModel::Other { text: _ } => true,
    }
}

/// Whether no type inside a generic argument goes by the name of a parameter.
pub open spec fn arg_untouched(a: ArgModel, base: Seq<SubstEntry>) -> bool
    decreases a, 0nat,
{
    match a {
        ArgModel::Type(t) => untouched(t, base),
        ArgModel::Binding { ident: _, ty } => untouched(ty, base),
        _ => true,
    }
}

/// Whether no type inside a path segment goes by the name of a parameter.
pub open spec fn segment_untouched(s: SegmentModel, base: Seq<SubstEntry>) -> bool
    decreases s, 0nat,
{
    match s.arguments {
        Some(args) => forall|k: int|
            0 <= k < args.len() ==> arg_untouched(#[trigger] args[k], base),
        None => true,
    }
}

/// Whether neither the type nor any type inside it goes by the name of a
/// parameter, so that putting bound types in leaves it as it is.
pub open spec fn untouched(t: TypeModel, base: Seq<SubstEntry>) -> bool
    decreases t, 0nat,
{
    !is_param(base, normalized(t)) && match t {
        TypeModel::Path { global: _, segments } => forall|k: int|
            0 <= k < segments.len() ==> segment_untouched(#[trigger] segments[k], base),
        TypeModel::Reference { lifetime: _, mutable: _, elem } => untouched(*elem, base),
        TypeModel::Slice { elem } => untouched(*elem, base),
        TypeModel::Tuple { elems } => forall|k: int|
            0 <= k < elems.len() ==> untouched(#[trigger] elems[k], base),
        TypeModel::Around { prefix: _, elem, suffix: _ } => untouched(*elem, base),
        TypeModel::Other { text: _ } => true,
    }
}

/// Whether a type is a parameter as a pattern writes it: the plain name of
/// a parameter of the map.
pub open spec fn is_parameter(t: TypeModel, base: Seq<SubstEntry>) -> bool {
    t matches TypeModel::Path { global, segments } && !global && segments.len() == 1
        && segments[0].arguments is None && is_param(base, segments[0].ident)
}

/// Whether a generic argument of a pattern is well formed: a type argument
/// goes by the name of a parameter, or is a well-formed pattern. The type of
/// a binding is matched as it is written, so no parameter may touch it.
pub open spec fn arg_fits(a: ArgModel, base: Seq<SubstEntry>) -> bool
    decreases a, 0nat,
{
    match a {
        ArgModel::Type(t) => is_param(base, normalized(t)) || fits(t, base),
        ArgModel::Binding { ident: _, ty } => untouched(ty, base),
        _ => true,
    }
}

/// Whether a path segment of a pattern is well formed.
pub open spec fn segment_fits(s: SegmentModel, base: Seq<SubstEntry>) -> bool
    decreases s, 0nat,
{
    match s.arguments {
        Some(args) => forall|k: int| 0 <= k < args.len() ==> arg_fits(#[trigger] args[k], base),
        None => true,
    }
}

/// Whether a pattern is well formed for the map: it is a parameter, or it
/// does not go by the name of one, is no path of one segment named like one,
/// and its parts are well formed. What stands inside a pointer, an array or
/// parentheses is matched as it is written, so no parameter may touch it.
pub open spec fn fits(t: TypeModel, base: Seq<SubstEntry>) -> bool
    decreases t, 0nat,
{
    is_parameter(t, base) || (!is_param(base, normalized(t)) && match t {
        TypeModel::Path { global: _, segments } => (segments.len() == 1 ==> !is_param(
            base,
            segments[0].ident,
        )) && forall|k: int|
            0 <= k < segments.len() ==> segment_fits(#[trigger] segments[k], base),
        TypeModel::Reference { lifetime: _, mutable: _, elem } => fits(*elem, base),
        TypeModel::Slice { elem } => fits(*elem, base),
        TypeModel::Tuple { elems } => forall|k: int|
            0 <= k < elems.len() ==> fits(#[trigger] elems[k], base),
        TypeModel::Around { prefix: _, elem, suffix: _ } => untouched(*elem, base),
        TypeModel::Other { text: _ } => true,
    })
}

/// Whether two maps have the same parameters in the same order.
pub open spec fn same_params(a: Seq<SubstEntry>, b: Seq<SubstEntry>) -> bool {
    a.len() == b.len() && forall|i: int| 0 <= i < a.len() ==> (#[trigger] a[i]).ident == b[i].ident
}

/// Whether every type that the map binds names no parameter.
pub open spec fn values_closed(map: Seq<SubstEntry>, base: Seq<SubstEntry>) -> bool {
    forall|i: int|
        0 <= i < map.len() && (#[trigger] map[i]).ty is Some ==> closed(map[i].ty->0, base)
}

/// Maps with the same parameters find a name at the same place.
pub proof fn lemma_same_params_position(a: Seq<SubstEntry>, b: Seq<SubstEntry>, name: Seq<char>, n: nat)
    requires
        same_params(a, b),
        n <= a.len(),
    ensures
        position_of(a, name, n) == position_of(b, name, n),
    decreases n,
{
    if n > 0 {
        lemma_same_params_position(a, b, name, (n - 1) as nat);
    }
}

/// Maps with the same parameters find a name at the same place.
pub proof fn lemma_same_params_index(a: Seq<SubstEntry>, b: Seq<SubstEntry>, name: Seq<char>)
    requires
        same_params(a, b),
    ensures
        entry_index(a, name) == entry_index(b, name),
        entry_index(a, name) matches Some(i) ==> 0 <= i < a.len(),
{
    lemma_same_params_position(a, b, name, a.len());
    lemma_entry_index_range(a, name);
}

/// Generic arguments that name no parameter do not touch a map with those parameters.
pub proof fn lemma_closed_args_avoid(
    args: Seq<ArgModel>,
    n: nat,
    base: Seq<SubstEntry>,
    map: Seq<SubstEntry>,
)
    requires
        n <= args.len(),
        same_params(base, map),
        forall|k: int| 0 <= k < args.len() ==> arg_closed(#[trigger] args[k], base),
    ensures
        args_avoid(args, n, map),
    decreases args, n,
{
    if n > 0 {
        lemma_closed_args_avoid(args, (n - 1) as nat, base, map);
        assert(arg_closed(args[n - 1], base));
        match args[n - 1] {
            ArgModel::Type(t) => {
                lemma_same_params_index(base, map, normalized(t));
                lemma_closed_avoids(t, base, map);
            },
            _ => {},
        }
    }
}

/// Path segments that name no parameter do not touch a map with those parameters.
pub proof fn lemma_closed_segments_avoid(
    segments: Seq<SegmentModel>,
    n: nat,
    base: Seq<SubstEntry>,
    map: Seq<SubstEntry>,
)
    requires
        n <= segments.len(),
        same_params(base, map),
        forall|k: int| 0 <= k < segments.len() ==> segment_closed(#[trigger] segments[k], base),
    ensures
        segments_avoid(segments, n, map),
    decreases segments, n,
{
    if n > 0 {
        lemma_closed_segments_avoid(segments, (n - 1) as nat, base, map);
        assert(segment_closed(segments[n - 1], base));
        match segments[n - 1].arguments {
            Some(args) => {
                lemma_closed_args_avoid(args, args.len(), base, map);
            },
            None => {},
        }
    }
}

/// Types that name no parameter do not touch a map with those parameters.
pub proof fn lemma_closed_types_avoid(
    types: Seq<TypeModel>,
    n: nat,
    base: Seq<SubstEntry>,
    map: Seq<SubstEntry>,
)
    requires
        n <= types.len(),
        same_params(base, map),
        forall|k: int| 0 <= k < types.len() ==> closed(#[trigger] types[k], base),
    ensures
        types_avoid(types, n, map),
    decreases types, n,
{
    if n > 0 {
        lemma_closed_types_avoid(types, (n - 1) as nat, base, map);
        assert(closed(types[n - 1], base));
        lemma_closed_avoids(types[n - 1], base, map);
    }
}

/// A type that names no parameter does not touch a map with those parameters.
pub proof fn lemma_closed_avoids(t: TypeModel, base: Seq<SubstEntry>, map: Seq<SubstEntry>)
    requires
        same_params(base, map),
        closed(t, base),
    ensures
        avoids(t, map),
    decreases t, 0nat,
{
    match t {
        TypeModel::Path { global: _, segments } => {
            if segments.len() == 1 {
                lemma_same_params_index(base, map, segments[0].ident);
            }
            lemma_closed_segments_avoid(segments, segments.len(), base, map);
        },
        TypeModel::Reference { lifetime: _, mutable: _, elem } => {
            lemma_closed_avoids(*elem, base, map);
        },
        TypeModel::Slice { elem } => {
            lemma_closed_avoids(*elem, base, map);
        },
        TypeModel::Tuple { elems } => {
            lemma_closed_types_avoid(elems, elems.len(), base, map);
        },
        TypeModel::Around { .. } => {},
        TypeModel::Other { text: _ } => {},
    }
}

/// A type that names no parameter agrees with itself.
pub proof fn lemma_closed_agrees_with_itself(t: TypeModel, base: Seq<SubstEntry>)
    requires
        closed(t, base),
    ensures
        agree(t, t),
{
    assert(same_params(base, base));
    lemma_closed_avoids(t, base, base);
    lemma_unifies_with_itself(t, base);
    law_unification_without_parameters(t, t, base);
}

/// A map that only binds more keeps the parameters.
pub proof fn lemma_only_binds_same_params(
    base: Seq<SubstEntry>,
    map: Seq<SubstEntry>,
    after: Seq<SubstEntry>,
)
    requires
        same_params(base, map),
        only_binds(map, after),
    ensures
        same_params(base, after),
{
    assert forall|i: int| 0 <= i < base.len() implies (#[trigger] base[i]).ident
        == after[i].ident by {
        assert(after[i].ident == map[i].ident);
    }
}

/// A generic argument with the bound types put in.
pub open spec fn arg_substituted(a: ArgModel, map: Seq<SubstEntry>) -> ArgModel {
    match a {
        ArgModel::Type(t) => ArgModel::Type(substitute(t, map)),
        ArgModel::Binding { ident, ty } => ArgModel::Binding { ident, ty: substitute(ty, map) },
        other => other,
    }
}

/// Whether two generic arguments agree: two types as types do, any other two by being equal.
pub open spec fn arg_pair_agree(x: ArgModel, y: ArgModel) -> bool {
    match (x, y) {
        (ArgModel::Type(a), ArgModel::Type(b)) => agree(a, b),
        (a, b) => a == b,
    }
}

/// The generic arguments with the bound types put in, one by one.
pub proof fn lemma_substitute_args_at(args: Seq<ArgModel>, n: nat, map: Seq<SubstEntry>)
    requires
        n <= args.len(),
    ensures
        substitute_args(args, n, map).len() == n,
        forall|k: int|
            0 <= k < n ==> (#[trigger] substitute_args(args, n, map)[k]) == arg_substituted(
                args[k],
                map,
            ),
    decreases n,
{
    if n > 0 {
        lemma_substitute_args_at(args, (n - 1) as nat, map);
    }
}

/// The path segments with the bound types put in, one by one.
pub proof fn lemma_substitute_segments_at(segments: Seq<SegmentModel>, n: nat, map: Seq<SubstEntry>)
    requires
        n <= segments.len(),
    ensures
        substitute_segments(segments, n, map).len() == n,
        forall|k: int|
            0 <= k < n ==> (#[trigger] substitute_segments(segments, n, map)[k])
                == substitute_segment(segments[k], map),
    decreases n,
{
    if n > 0 {
        lemma_substitute_segments_at(segments, (n - 1) as nat, map);
    }
}

/// The types with the bound types put in, one by one.
pub proof fn lemma_substitute_types_at(types: Seq<TypeModel>, n: nat, map: Seq<SubstEntry>)
    requires
        n <= types.len(),
    ensures
        substitute_types(types, n, map).len() == n,
        forall|k: int|
            0 <= k < n ==> (#[trigger] substitute_types(types, n, map)[k]) == substitute(
                types[k],
                map,
            ),
    decreases n,
{
    if n > 0 {
        lemma_substitute_types_at(types, (n - 1) as nat, map);
    }
}

/// Generic arguments that agree one by one agree.
pub proof fn lemma_args_agree_pointwise(a: Seq<ArgModel>, b: Seq<ArgModel>, n: nat)
    requires
        n <= a.len(),
        n <= b.len(),
        forall|k: int| 0 <= k < n ==> arg_pair_agree(#[trigger] a[k], b[k]),
    ensures
        args_agree(a, b, n),
    decreases n,
{
    if n > 0 {
        lemma_args_agree_pointwise(a, b, (n - 1) as nat);
        assert(arg_pair_agree(a[n - 1], b[n - 1]));
    }
}

/// Path segments that agree one by one agree.
pub proof fn lemma_segments_agree_pointwise(a: Seq<SegmentModel>, b: Seq<SegmentModel>, n: nat)
    requires
        n <= a.len(),
        n <= b.len(),
        forall|k: int|
            0 <= k < n ==> (#[trigger] a[k]).ident == b[k].ident && path_args_agree(
                a[k].arguments,
                b[k].arguments,
            ),
    ensures
        segments_agree(a, b, n),
    decreases n,
{
    if n > 0 {
        lemma_segments_agree_pointwise(a, b, (n - 1) as nat);
        assert(a[n - 1].ident == b[n - 1].ident);
    }
}

/// Types that agree one by one agree.
pub proof fn lemma_types_agree_pointwise(a: Seq<TypeModel>, b: Seq<TypeModel>, n: nat)
    requires
        n <= a.len(),
        n <= b.len(),
        forall|k: int| 0 <= k < n ==> agree(#[trigger] a[k], b[k]),
    ensures
        types_agree(a, b, n),
    decreases n,
{
    if n > 0 {
        lemma_types_agree_pointwise(a, b, (n - 1) as nat);
        assert(agree(a[n - 1], b[n - 1]));
    }
}

/// What a map that only binds more holds for a name that an earlier map bound.
pub proof fn lemma_binding_is_kept(
    base: Seq<SubstEntry>,
    map: Seq<SubstEntry>,
    later: Seq<SubstEntry>,
    name: Seq<char>,
)
    requires
        same_params(base, map),
        only_binds(map, later),
    ensures
        entry_index(later, name) == entry_index(map, name),
        entry_index(base, name) == entry_index(map, name),
        entry_index(map, name) matches Some(i) ==> 0 <= i < map.len() && (map[i].ty is Some
            ==> bound_type(later, name) == map[i].ty),
        entry_index(map, name) is None ==> bound_type(later, name) is None,
{
    lemma_only_binds_same_params(base, map, later);
    lemma_same_params_index(base, map, name);
    lemma_same_params_index(base, later, name);
    match entry_index(map, name) {
        Some(i) => {
            assert(later[i].ident == map[i].ident);
        },
        None => {},
    }
}

/// Putting bound types into a generic argument that no parameter touches
/// leaves it as it is.
pub proof fn lemma_untouched_arg_stays(a: ArgModel, base: Seq<SubstEntry>, later: Seq<SubstEntry>)
    requires
        same_params(base, later),
        arg_untouched(a, base),
    ensures
        arg_substituted(a, later) == a,
    decreases a, 0nat,
{
    match a {
        ArgModel::Type(t) => {
            lemma_untouched_stays(t, base, later);
        },
        ArgModel::Binding { ident: _, ty } => {
            lemma_untouched_stays(ty, base, later);
        },
        _ => {},
    }
}

/// Putting bound types into a path segment that no parameter touches leaves
/// it as it is.
pub proof fn lemma_untouched_segment_stays(
    s: SegmentModel,
    base: Seq<SubstEntry>,
    later: Seq<SubstEntry>,
)
    requires
        same_params(base, later),
        segment_untouched(s, base),
    ensures
        substitute_segment(s, later) == s,
    decreases s, 0nat,
{
    match s.arguments {
        Some(args) => {
            lemma_substitute_args_at(args, args.len(), later);
            let put = substitute_args(args, args.len(), later);
            assert forall|k: int| 0 <= k < args.len() implies #[trigger] put[k] == args[k] by {
                assert(arg_untouched(args[k], base));
                lemma_untouched_arg_stays(args[k], base, later);
            }
            assert(put =~= args);
        },
        None => {},
    }
}

/// Putting bound types into a type that no parameter touches leaves it as it is.
pub proof fn lemma_untouched_stays(t: TypeModel, base: Seq<SubstEntry>, later: Seq<SubstEntry>)
    requires
        same_params(base, later),
        untouched(t, base),
    ensures
        substitute(t, later) == t,
    decreases t, 0nat,
{
    lemma_same_params_index(base, later, normalized(t));
    match t {
        TypeModel::Path { global: _, segments } => {
            lemma_substitute_segments_at(segments, segments.len(), later);
            let put = substitute_segments(segments, segments.len(), later);
            assert forall|k: int| 0 <= k < segments.len() implies #[trigger] put[k]
                == segments[k] by {
                assert(segment_untouched(segments[k], base));
                lemma_untouched_segment_stays(segments[k], base, later);
            }
            assert(put =~= segments);
        },
        TypeModel::Reference { lifetime: _, mutable: _, elem } => {
            lemma_untouched_stays(*elem, base, later);
        },
        TypeModel::Slice { elem } => {
            lemma_untouched_stays(*elem, base, later);
        },
        TypeModel::Tuple { elems } => {
            lemma_substitute_types_at(elems, elems.len(), later);
            let put = substitute_types(elems, elems.len(), later);
            assert forall|k: int| 0 <= k < elems.len() implies #[trigger] put[k] == elems[k] by {
                assert(untouched(elems[k], base));
                lemma_untouched_stays(elems[k], base, later);
            }
            assert(put =~= elems);
        },
        TypeModel::Around { prefix: _, elem, suffix: _ } => {
            lemma_untouched_stays(*elem, base, later);
        },
        TypeModel::Other { text: _ } => {},
    }
}

/// Soundness for one generic argument.
pub proof fn lemma_sound_arg(
    p: ArgModel,
    c: ArgModel,
    base: Seq<SubstEntry>,
    map: Seq<SubstEntry>,
    later: Seq<SubstEntry>,
)
    requires
        arg_fits(p, base),
        arg_closed(c, base),
        same_params(base, map),
        values_closed(map, base),
        unify_arg(p, c, map).0,
        only_binds(unify_arg(p, c, map).1, later),
    ensures
        arg_pair_agree(arg_substituted(p, later), c),
        values_closed(unify_arg(p, c, map).1, base),
    decreases c, 0nat,
{
    match (p, c) {
        (ArgModel::Type(pt), ArgModel::Type(ct)) => {
            let name = normalized(pt);
            lemma_same_params_index(base, map, name);
            match entry_index(map, name) {
                Some(i) => match map[i].ty {
                    Some(x) => {
                        assert(closed(x, base));
                        lemma_closed_avoids(x, base, map);
                        law_unification_without_parameters(x, ct, map);
                        lemma_binding_is_kept(base, map, later, name);
                    },
                    None => {
                        let bound = bind_entry(map, i, ct);
                        assert(only_binds(map, bound));
                        lemma_only_binds_same_params(base, map, bound);
                        lemma_closed_avoids(ct, base, bound);
                        law_unification_without_parameters(ct, ct, bound);
                        lemma_binding_is_kept(base, bound, later, name);
                        assert(bound[i].ty == Some(ct));
                        assert forall|j: int|
                            0 <= j < bound.len() && (#[trigger] bound[j]).ty is Some implies closed(
                            bound[j].ty->0,
                            base,
                        ) by {
                            if j != i {
                                assert(map[j].ty is Some);
                            }
                        }
                    },
                },
                None => {
                    lemma_sound(pt, ct, base, map, later);
                },
            }
        },
        (ArgModel::Binding { ident: _, ty }, _) => {
            lemma_only_binds_same_params(base, map, later);
            lemma_untouched_stays(ty, base, later);
        },
        _ => {},
    }
}

/// Soundness for the first `n` generic arguments.
pub proof fn lemma_sound_args(
    pattern: Seq<ArgModel>,
    concrete: Seq<ArgModel>,
    n: nat,
    base: Seq<SubstEntry>,
    map: Seq<SubstEntry>,
    later: Seq<SubstEntry>,
)
    requires
        n <= pattern.len(),
        n <= concrete.len(),
        forall|k: int| 0 <= k < pattern.len() ==> arg_fits(#[trigger] pattern[k], base),
        forall|k: int| 0 <= k < concrete.len() ==> arg_closed(#[trigger] concrete[k], base),
        same_params(base, map),
        values_closed(map, base),
        unify_args(pattern, concrete, n, map).0,
        only_binds(unify_args(pattern, concrete, n, map).1, later),
    ensures
        forall|k: int|
            0 <= k < n ==> arg_pair_agree(arg_substituted(#[trigger] pattern[k], later), concrete[k]),
        values_closed(unify_args(pattern, concrete, n, map).1, base),
    decreases concrete, n,
{
    if n > 0 {
        let before = unify_args(pattern, concrete, (n - 1) as nat, map).1;
        let after = unify_arg(pattern[n - 1], concrete[n - 1], before).1;
        assert(unify_args(pattern, concrete, (n - 1) as nat, map).0);
        assert(unify_args(pattern, concrete, n, map) == unify_arg(
            pattern[n - 1],
            concrete[n - 1],
            before,
        ));
        lemma_unify_args_only_binds(pattern, concrete, (n - 1) as nat, map);
        lemma_unify_arg_only_binds(pattern[n - 1], concrete[n - 1], before);
        lemma_only_binds_transitive(before, after, later);
        lemma_only_binds_same_params(base, map, before);
        lemma_sound_args(pattern, concrete, (n - 1) as nat, base, map, later);
        lemma_sound_arg(pattern[n - 1], concrete[n - 1], base, before, later);
    }
}

/// Soundness for the generic argument lists of two path segments.
pub proof fn lemma_sound_path_args(
    p: SegmentModel,
    c: SegmentModel,
    base: Seq<SubstEntry>,
    map: Seq<SubstEntry>,
    later: Seq<SubstEntry>,
)
    requires
        segment_fits(p, base),
        segment_closed(c, base),
        same_params(base, map),
        values_closed(map, base),
        unify_path_args(p.arguments, c.arguments, map).0,
        only_binds(unify_path_args(p.arguments, c.arguments, map).1, later),
    ensures
        path_args_agree(substitute_segment(p, later).arguments, c.arguments),
        values_closed(unify_path_args(p.arguments, c.arguments, map).1, base),
    decreases c, 0nat,
{
    match (p.arguments, c.arguments) {
        (Some(pa), Some(ca)) => {
            lemma_sound_args(pa, ca, ca.len(), base, map, later);
            lemma_substitute_args_at(pa, pa.len(), later);
            let put = substitute_args(pa, pa.len(), later);
            assert forall|k: int| 0 <= k < ca.len() implies arg_pair_agree(
                #[trigger] put[k],
                ca[k],
            ) by {
                assert(arg_pair_agree(arg_substituted(pa[k], later), ca[k]));
            }
            lemma_args_agree_pointwise(put, ca, ca.len());
        },
        _ => {},
    }
}

/// Soundness for the first `n` path segments.
pub proof fn lemma_sound_segments(
    pattern: Seq<SegmentModel>,
    concrete: Seq<SegmentModel>,
    n: nat,
    base: Seq<SubstEntry>,
    map: Seq<SubstEntry>,
    later: Seq<SubstEntry>,
)
    requires
        n <= pattern.len(),
        n <= concrete.len(),
        forall|k: int| 0 <= k < pattern.len() ==> segment_fits(#[trigger] pattern[k], base),
        forall|k: int| 0 <= k < concrete.len() ==> segment_closed(#[trigger] concrete[k], base),
        same_params(base, map),
        values_closed(map, base),
        unify_segments(pattern, concrete, n, map).0,
        only_binds(unify_segments(pattern, concrete, n, map).1, later),
    ensures
        forall|k: int|
            0 <= k < n ==> (#[trigger] pattern[k]).ident == concrete[k].ident && path_args_agree(
                substitute_segment(pattern[k], later).arguments,
                concrete[k].arguments,
            ),
        values_closed(unify_segments(pattern, concrete, n, map).1, base),
    decreases concrete, n,
{
    if n > 0 {
        let before = unify_segments(pattern, concrete, (n - 1) as nat, map).1;
        let after = unify_path_args(
            pattern[n - 1].arguments,
            concrete[n - 1].arguments,
            before,
        ).1;
        assert(unify_segments(pattern, concrete, (n - 1) as nat, map).0);
        assert(pattern[n - 1].ident == concrete[n - 1].ident);
        assert(unify_segments(pattern, concrete, n, map) == unify_path_args(
            pattern[n - 1].arguments,
            concrete[n - 1].arguments,
            before,
        ));
        lemma_unify_segments_only_binds(pattern, concrete, (n - 1) as nat, map);
        lemma_unify_segments_only_binds(pattern, concrete, n, map);
        lemma_path_args_only_binds(pattern[n - 1], concrete[n - 1], before);
        lemma_only_binds_transitive(before, after, later);
        lemma_only_binds_same_params(base, map, before);
        lemma_sound_segments(pattern, concrete, (n - 1) as nat, base, map, later);
        lemma_sound_path_args(pattern[n - 1], concrete[n - 1], base, before, later);
    }
}

/// Matching the generic argument lists of two path segments only binds.
pub proof fn lemma_path_args_only_binds(p: SegmentModel, c: SegmentModel, map: Seq<SubstEntry>)
    ensures
        only_binds(map, unify_path_args(p.arguments, c.arguments, map).1),
{
    match (p.arguments, c.arguments) {
        (Some(pa), Some(ca)) => {
            if pa.len() == ca.len() {
                lemma_unify_args_only_binds(pa, ca, ca.len(), map);
            }
        },
        _ => {},
    }
}

/// Soundness for the first `n` types of two lists.
pub proof fn lemma_sound_types(
    pattern: Seq<TypeModel>,
    concrete: Seq<TypeModel>,
    n: nat,
    base: Seq<SubstEntry>,
    map: Seq<SubstEntry>,
    later: Seq<SubstEntry>,
)
    requires
        n <= pattern.len(),
        n <= concrete.len(),
        forall|k: int| 0 <= k < pattern.len() ==> fits(#[trigger] pattern[k], base),
        forall|k: int| 0 <= k < concrete.len() ==> closed(#[trigger] concrete[k], base),
        same_params(base, map),
        values_closed(map, base),
        unify_types(pattern, concrete, n, map).0,
        only_binds(unify_types(pattern, concrete, n, map).1, later),
    ensures
        forall|k: int| 0 <= k < n ==> agree(substitute(#[trigger] pattern[k], later), concrete[k]),
        values_closed(unify_types(pattern, concrete, n, map).1, base),
    decreases concrete, n,
{
    if n > 0 {
        let before = unify_types(pattern, concrete, (n - 1) as nat, map).1;
        let after = unify(pattern[n - 1], concrete[n - 1], before).1;
        assert(unify_types(pattern, concrete, (n - 1) as nat, map).0);
        assert(unify_types(pattern, concrete, n, map) == unify(
            pattern[n - 1],
            concrete[n - 1],
            before,
        ));
        lemma_unify_types_only_binds(pattern, concrete, (n - 1) as nat, map);
        law_unify_only_binds(pattern[n - 1], concrete[n - 1], before);
        lemma_only_binds_transitive(before, after, later);
        lemma_only_binds_same_params(base, map, before);
        lemma_sound_types(pattern, concrete, (n - 1) as nat, base, map, later);
        lemma_sound(pattern[n - 1], concrete[n - 1], base, before, later);
    }
}

/// Soundness of unification, for a map that is under way: see
/// `law_unification_is_sound`.
pub proof fn lemma_sound(
    p: TypeModel,
    c: TypeModel,
    base: Seq<SubstEntry>,
    map: Seq<SubstEntry>,
    later: Seq<SubstEntry>,
)
    requires
        fits(p, base),
        closed(c, base),
        same_params(base, map),
        values_closed(map, base),
        unify(p, c, map).0,
        only_binds(unify(p, c, map).1, later),
    ensures
        agree(substitute(p, later), c),
        values_closed(unify(p, c, map).1, base),
    decreases c, 0nat,
{
    law_unify_only_binds(p, c, map);
    let after = unify(p, c, map).1;
    lemma_only_binds_transitive(map, after, later);
    lemma_binding_is_kept(base, map, later, normalized(p));
    if is_parameter(p, base) {
        let ps = p->Path_segments;
        let name = ps[0].ident;
        assert(ps =~= seq![SegmentModel { ident: name, arguments: None }]);
        assert(p == ident_type(name));
        lemma_ident_type_name(name);
        lemma_same_params_index(base, map, name);
        match c {
            TypeModel::Path { global: _, segments: cs } => {
                let i = entry_index(map, name)->0;
                if map[i].ty is None {
                    assert(unbound_parameter(ps, map) == Some(i));
                    let bound = bind_entry(map, i, c);
                    assert(after == bound);
                    lemma_binding_is_kept(base, bound, later, name);
                    assert(bound[i].ty == Some(c));
                    lemma_closed_agrees_with_itself(c, base);
                    assert forall|j: int|
                        0 <= j < bound.len() && (#[trigger] bound[j]).ty is Some implies closed(
                        bound[j].ty->0,
                        base,
                    ) by {
                        if j != i {
                            assert(map[j].ty is Some);
                        }
                    }
                } else {
                    assert(unbound_parameter(ps, map) is None);
                    assert(cs.len() == 1);
                    assert(unify(p, c, map) == unify_segments(ps, cs, 1, map));
                    assert(unify_segments(ps, cs, 0, map) == (true, map));
                    assert(unify_segments(ps, cs, 1, map).0 ==> ps[0].ident == cs[0].ident);
                    assert(cs[0].ident == name);
                    assert(false);
                }
            },
            _ => {},
        }
    } else {
        match (p, c) {
            (
                TypeModel::Path { global: _, segments: ps },
                TypeModel::Path { global: _, segments: cs },
            ) => {
                if ps.len() == 1 {
                    lemma_same_params_index(base, map, ps[0].ident);
                }
                assert(unbound_parameter(ps, map) is None);
                lemma_sound_segments(ps, cs, cs.len(), base, map, later);
                lemma_substitute_segments_at(ps, ps.len(), later);
                let put = substitute_segments(ps, ps.len(), later);
                assert forall|k: int| 0 <= k < cs.len() implies (#[trigger] put[k]).ident
                    == cs[k].ident && path_args_agree(put[k].arguments, cs[k].arguments) by {
                    assert(ps[k].ident == cs[k].ident);
                }
                lemma_segments_agree_pointwise(put, cs, cs.len());
            },
            (
                TypeModel::Reference { lifetime: _, mutable: _, elem: pe },
                TypeModel::Reference { lifetime: _, mutable: _, elem: ce },
            ) => {
                lemma_sound(*pe, *ce, base, map, later);
            },
            (TypeModel::Slice { elem: pe }, TypeModel::Slice { elem: ce }) => {
                lemma_sound(*pe, *ce, base, map, later);
            },
            (TypeModel::Tuple { elems: pl }, TypeModel::Tuple { elems: cl }) => {
                lemma_sound_types(pl, cl, cl.len(), base, map, later);
                lemma_substitute_types_at(pl, pl.len(), later);
                let put = substitute_types(pl, pl.len(), later);
                assert forall|k: int| 0 <= k < cl.len() implies agree(#[trigger] put[k], cl[k]) by {
                    assert(agree(substitute(pl[k], later), cl[k]));
                }
                lemma_types_agree_pointwise(put, cl, cl.len());
            },
            (TypeModel::Around { prefix: _, elem, suffix: _ }, _) => {
                lemma_only_binds_same_params(base, map, later);
                lemma_untouched_stays(*elem, base, later);
            },
            _ => {},
        }
    }
}

/// Unification is sound: where a well-formed pattern matches a type that
/// names no parameter, the pattern with the bound types put in is that type
/// up to the lifetimes of references and a leading `::`. This holds for the
/// map that the match gives and for every map that only binds more, and from
/// every map whose bound types name no parameter.
pub proof fn law_unification_is_sound(
    pattern: TypeModel,
    concrete: TypeModel,
    map: Seq<SubstEntry>,
    later: Seq<SubstEntry>,
)
    requires
        fits(pattern, map),
        closed(concrete, map),
        values_closed(map, map),
        unify(pattern, concrete, map).0,
        only_binds(unify(pattern, concrete, map).1, later),
    ensures
        agree(substitute(pattern, later), concrete),
{
    assert(same_params(map, map));
    lemma_sound(pattern, concrete, map, map, later);
}

/// The map that a rule starts from binds nothing.
pub proof fn lemma_fresh_map_binds_nothing(params: Seq<TypeParamModel>, n: nat)
    requires
        n <= params.len(),
    ensures
        forall|i: int|
            0 <= i < fresh_map(params, n).len() ==> (#[trigger] fresh_map(params, n)[i]).ty is None,
    decreases n,
{
    if n > 0 {
        lemma_fresh_map_binds_nothing(params, (n - 1) as nat);
        lemma_entry_index_range(fresh_map(params, (n - 1) as nat), params[n - 1].ident);
    }
}

/// What a rule binds gives its source back: where the source pattern of a
/// rule is well formed for the rule's parameters and matches a type that
/// names none of them, the source pattern with the bound types put in is
/// that type, up to the lifetimes of references and a leading `::`.
pub proof fn law_rule_source_is_recovered(
    from_ty: TypeModel,
    ty: TypeModel,
    params: Seq<TypeParamModel>,
)
    requires
        fits(from_ty, fresh_map(params, params.len())),
        closed(ty, fresh_map(params, params.len())),
        unify(from_ty, ty, fresh_map(params, params.len())).0,
    ensures
        agree(substitute(from_ty, unify(from_ty, ty, fresh_map(params, params.len())).1), ty),
{
    let fresh = fresh_map(params, params.len());
    let bound = unify(from_ty, ty, fresh).1;
    lemma_fresh_map_binds_nothing(params, params.len());
    assert(only_binds(bound, bound));
    law_unification_is_sound(from_ty, ty, fresh, bound);
}

} // verus!
