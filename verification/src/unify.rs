//! The unifier: matching a pattern type, which may name generic parameters,
//! against a concrete type.

use crate::normalize::{normalize_ty_lifetimes, normalized};
use crate::subst_map::{bind_entry, entry_index, SubstEntry, TyParamsSubstMap};
use crate::type_expr::{
    args_model, segments_model, types_model, ArgModel, GenericArgument, SegmentModel, TypeExpr,
    TypeModel,
};
use vstd::prelude::*;

verus! {

/// Matches one generic argument of the pattern against one of the concrete
/// type. Two type arguments are unified, where the pattern's argument is read
/// through the map first: a parameter that is already bound stands for its
/// binding, and an unbound one is bound to the concrete argument. Any other
/// pair matches only if both are equal.
pub open spec fn unify_arg(pattern: ArgModel, concrete: ArgModel, map: Seq<SubstEntry>) -> (
    bool,
    Seq<SubstEntry>,
)
    decreases concrete, 0nat,
{
    match (pattern, concrete) {
        (ArgModel::Type(p), ArgModel::Type(c)) => match entry_index(map, normalized(p)) {
            Some(i) => match map[i].ty {
                Some(bound) => unify(bound, c, map),
                None => unify(c, c, bind_entry(map, i, c)),
            },
            None => unify(p, c, map),
        },
        _ => (pattern == concrete, map),
    }
}

/// Matches the first `n` generic arguments pairwise and in order, stopping at
/// the first pair that does not match.
pub open spec fn unify_args(
    pattern: Seq<ArgModel>,
    concrete: Seq<ArgModel>,
    n: nat,
    map: Seq<SubstEntry>,
) -> (bool, Seq<SubstEntry>)
    decreases concrete, n,
{
    if n == 0 || n > concrete.len() || n > pattern.len() {
        (true, map)
    } else {
        let (ok, before) = unify_args(pattern, concrete, (n - 1) as nat, map);
        if ok {
            unify_arg(pattern[n - 1], concrete[n - 1], before)
        } else {
            (false, before)
        }
    }
}

/// Matches the generic argument lists of two path segments: two written lists
/// must have the same length and match pairwise, two absent lists match, and a
/// written list never matches an absent one.
pub open spec fn unify_path_args(
    pattern: Option<Seq<ArgModel>>,
    concrete: Option<Seq<ArgModel>>,
    map: Seq<SubstEntry>,
) -> (bool, Seq<SubstEntry>)
    decreases concrete, 0nat,
{
    match (pattern, concrete) {
        (Some(p), Some(c)) => if p.len() != c.len() {
            (false, map)
        } else {
            unify_args(p, c, c.len(), map)
        },
        (None, None) => (true, map),
        _ => (false, map),
    }
}

/// Matches the first `n` path segments pairwise and in order: the names must
/// be equal and the generic arguments must match.
pub open spec fn unify_segments(
    pattern: Seq<SegmentModel>,
    concrete: Seq<SegmentModel>,
    n: nat,
    map: Seq<SubstEntry>,
) -> (bool, Seq<SubstEntry>)
    decreases concrete, n,
{
    if n == 0 || n > concrete.len() || n > pattern.len() {
        (true, map)
    } else {
        let (ok, before) = unify_segments(pattern, concrete, (n - 1) as nat, map);
        if !ok {
            (false, before)
        } else if pattern[n - 1].ident != concrete[n - 1].ident {
            (false, before)
        } else {
            unify_path_args(pattern[n - 1].arguments, concrete[n - 1].arguments, before)
        }
    }
}

/// Matches the first `n` types pairwise and in order, stopping at the first
/// pair that does not match.
pub open spec fn unify_types(
    pattern: Seq<TypeModel>,
    concrete: Seq<TypeModel>,
    n: nat,
    map: Seq<SubstEntry>,
) -> (bool, Seq<SubstEntry>)
    decreases concrete, n,
{
    if n == 0 || n > concrete.len() || n > pattern.len() {
        (true, map)
    } else {
        let (ok, before) = unify_types(pattern, concrete, (n - 1) as nat, map);
        if ok {
            unify(pattern[n - 1], concrete[n - 1], before)
        } else {
            (false, before)
        }
    }
}

/// Whether the pattern is one unbound parameter of the map, and which.
pub open spec fn unbound_parameter(segments: Seq<SegmentModel>, map: Seq<SubstEntry>) -> Option<
    int,
> {
    if segments.len() == 1 {
        match entry_index(map, segments[0].ident) {
            Some(i) => if map[i].ty is None {
                Some(i)
            } else {
                None
            },
            None => None,
        }
    } else {
        None
    }
}

/// Unification of `pattern` against `concrete`, starting from `map`: whether
/// they match, and the map afterwards. On a mismatch the map holds the
/// bindings that were made before the mismatch was found.
pub open spec fn unify(pattern: TypeModel, concrete: TypeModel, map: Seq<SubstEntry>) -> (
    bool,
    Seq<SubstEntry>,
)
    decreases concrete, 0nat,
{
    match (pattern, concrete) {
        (
            TypeModel::Path { global: _, segments: p },
            TypeModel::Path { global: _, segments: c },
        ) => if p.len() != c.len() {
            (false, map)
        } else {
            match unbound_parameter(p, map) {
                Some(i) => (true, bind_entry(map, i, concrete)),
                None => unify_segments(p, c, c.len(), map),
            }
        },
        (
            TypeModel::Reference { lifetime: _, mutable: pm, elem: p },
            TypeModel::Reference { lifetime: _, mutable: cm, elem: c },
        ) => if pm != cm {
            (false, map)
        } else {
            unify(*p, *c, map)
        },
        (TypeModel::Slice { elem: p }, TypeModel::Slice { elem: c }) => unify(*p, *c, map),
        (TypeModel::Tuple { elems: p }, TypeModel::Tuple { elems: c }) => if p.len() != c.len() {
            (false, map)
        } else {
            unify_types(p, c, c.len(), map)
        },
        _ => (pattern == concrete, map),
    }
}

/// Matches the generic arguments of a pattern's path segment against those of
/// a concrete one, binding parameters of `subst_map` on the way.
#[verifier::loop_isolation(false)]
pub fn is_second_subst_of_first_ppath(
    p1: &Option<Vec<GenericArgument>>,
    p2: &Option<Vec<GenericArgument>>,
    subst_map: &mut TyParamsSubstMap,
) -> (r: bool)
    ensures
        (r, final(subst_map)@) == unify_path_args(
            path_args_model(*p1),
            path_args_model(*p2),
            old(subst_map)@,
        ),
        old(subst_map).wf() ==> final(subst_map).wf(),
    decreases p2,
{
    match (p1, p2) {
        (Some(a1), Some(a2)) => {
            let ghost m1 = args_model(a1@);
            let ghost m2 = args_model(a2@);
            let ghost start = subst_map@;
            if a1.len() != a2.len() {
                return false;
            }
            let mut i: usize = 0;
            while i < a1.len()
                invariant
                    i <= a1.len(),
                    a1.len() == a2.len(),
                    (true, subst_map@) == unify_args(m1, m2, i as nat, start),
                    old(subst_map).wf() ==> subst_map.wf(),
                decreases a1.len() - i,
            {
                let ghost before = subst_map@;
                assert(m1[i as int] == a1@[i as int]@);
                assert(m2[i as int] == a2@[i as int]@);
                let matched = match (&a1[i], &a2[i]) {
                    (GenericArgument::Type(type_p1), GenericArgument::Type(type_p2)) => {
                        let type_p1_name = normalize_ty_lifetimes(type_p1);
                        let real_type_p1 = match subst_map.position(type_p1_name.as_str()) {
                            Some(idx) => match subst_map.binding(idx) {
                                Some(x) => x.clone(),
                                None => {
                                    subst_map.bind(idx, type_p2.clone());
                                    type_p2.clone()
                                },
                            },
                            None => type_p1.clone(),
                        };
                        is_second_subst_of_first(&real_type_p1, type_p2, subst_map)
                    },
                    (x, y) => x.same_arg(y),
                };
                assert((matched, subst_map@) == unify_arg(m1[i as int], m2[i as int], before));
                if !matched {
                    proof {
                        lemma_unify_args_failed(m1, m2, (i + 1) as nat, a1@.len() as nat, start);
                    }
                    return false;
                }
                i += 1;
            }
            true
        },
        (None, None) => true,
        _ => false,
    }
}

/// Decides whether `ty2` is `ty1` with types put in place of the unbound
/// parameters of `subst_map`, and records in `subst_map` which types those are.
/// After a `false` the map holds whatever was bound before the mismatch.
#[verifier::loop_isolation(false)]
pub fn is_second_subst_of_first(
    ty1: &TypeExpr,
    ty2: &TypeExpr,
    subst_map: &mut TyParamsSubstMap,
) -> (r: bool)
    ensures
        (r, final(subst_map)@) == unify(ty1@, ty2@, old(subst_map)@),
        old(subst_map).wf() ==> final(subst_map).wf(),
    decreases ty2,
{
    match (ty1, ty2) {
        (
            TypeExpr::Path { global: _, segments: p1 },
            TypeExpr::Path { global: _, segments: p2 },
        ) => {
            let ghost m1 = segments_model(p1@);
            let ghost m2 = segments_model(p2@);
            let ghost start = subst_map@;
            if p1.len() != p2.len() {
                return false;
            }
            if p1.len() == 1 {
                assert(m1[0] == p1@[0]@);
                match subst_map.position(p1[0].ident.as_str()) {
                    Some(idx) => {
                        if subst_map.binding(idx).is_none() {
                            subst_map.bind(idx, ty2.clone());
                            return true;
                        }
                    },
                    None => {},
                }
            }
            assert(unbound_parameter(m1, start) is None);
            let mut i: usize = 0;
            while i < p1.len()
                invariant
                    i <= p1.len(),
                    p1.len() == p2.len(),
                    (true, subst_map@) == unify_segments(m1, m2, i as nat, start),
                    old(subst_map).wf() ==> subst_map.wf(),
                decreases p1.len() - i,
            {
                assert(m1[i as int] == p1@[i as int]@);
                assert(m2[i as int] == p2@[i as int]@);
                let s1 = &p1[i];
                let s2 = &p2[i];
                let matched = s1.ident == s2.ident && is_second_subst_of_first_ppath(
                    &s1.arguments,
                    &s2.arguments,
                    subst_map,
                );
                assert((matched, subst_map@) == unify_segments(m1, m2, (i + 1) as nat, start));
                if !matched {
                    proof {
                        lemma_unify_segments_failed(m1, m2, (i + 1) as nat, p1@.len() as nat, start);
                    }
                    return false;
                }
                i += 1;
            }
            true
        },
        (
            TypeExpr::Reference { lifetime: _, mutable: m1, elem: e1 },
            TypeExpr::Reference { lifetime: _, mutable: m2, elem: e2 },
        ) => {
            if *m1 != *m2 {
                false
            } else {
                is_second_subst_of_first(e1, e2, subst_map)
            }
        },
        (TypeExpr::Slice { elem: e1 }, TypeExpr::Slice { elem: e2 }) => {
            is_second_subst_of_first(e1, e2, subst_map)
        },
        (TypeExpr::Tuple { elems: v1 }, TypeExpr::Tuple { elems: v2 }) => {
            let ghost m1 = types_model(v1@);
            let ghost m2 = types_model(v2@);
            let ghost start = subst_map@;
            if v1.len() != v2.len() {
                return false;
            }
            let mut i: usize = 0;
            while i < v1.len()
                invariant
                    i <= v1.len(),
                    v1.len() == v2.len(),
                    (true, subst_map@) == unify_types(m1, m2, i as nat, start),
                    old(subst_map).wf() ==> subst_map.wf(),
                decreases v1.len() - i,
            {
                assert(m1[i as int] == v1@[i as int]@);
                assert(m2[i as int] == v2@[i as int]@);
                if !is_second_subst_of_first(&v1[i], &v2[i], subst_map) {
                    proof {
                        lemma_unify_types_failed(m1, m2, (i + 1) as nat, v1@.len() as nat, start);
                    }
                    return false;
                }
                i += 1;
            }
            true
        },
        _ => ty1.same_type(ty2),
    }
}

/// The model of the generic arguments of a path segment.
pub open spec fn path_args_model(args: Option<Vec<GenericArgument>>) -> Option<Seq<ArgModel>> {
    match args {
        Some(a) => Some(args_model(a@)),
        None => None,
    }
}

/// Once a pair of generic arguments has failed to match, the rest is not looked at.
pub proof fn lemma_unify_args_failed(
    pattern: Seq<ArgModel>,
    concrete: Seq<ArgModel>,
    n: nat,
    m: nat,
    map: Seq<SubstEntry>,
)
    requires
        n <= m,
        m <= pattern.len(),
        m <= concrete.len(),
        !unify_args(pattern, concrete, n, map).0,
    ensures
        unify_args(pattern, concrete, m, map) == unify_args(pattern, concrete, n, map),
    decreases m,
{
    if n < m {
        lemma_unify_args_failed(pattern, concrete, n, (m - 1) as nat, map);
    }
}

/// Once a pair of path segments has failed to match, the rest is not looked at.
pub proof fn lemma_unify_segments_failed(
    pattern: Seq<SegmentModel>,
    concrete: Seq<SegmentModel>,
    n: nat,
    m: nat,
    map: Seq<SubstEntry>,
)
    requires
        n <= m,
        m <= pattern.len(),
        m <= concrete.len(),
        !unify_segments(pattern, concrete, n, map).0,
    ensures
        unify_segments(pattern, concrete, m, map) == unify_segments(pattern, concrete, n, map),
    decreases m,
{
    if n < m {
        lemma_unify_segments_failed(pattern, concrete, n, (m - 1) as nat, map);
    }
}

/// Once a pair of types has failed to match, the rest is not looked at.
pub proof fn lemma_unify_types_failed(
    pattern: Seq<TypeModel>,
    concrete: Seq<TypeModel>,
    n: nat,
    m: nat,
    map: Seq<SubstEntry>,
)
    requires
        n <= m,
        m <= pattern.len(),
        m <= concrete.len(),
        !unify_types(pattern, concrete, n, map).0,
    ensures
        unify_types(pattern, concrete, m, map) == unify_types(pattern, concrete, n, map),
    decreases m,
{
    if n < m {
        lemma_unify_types_failed(pattern, concrete, n, (m - 1) as nat, map);
    }
}

} // verus!
