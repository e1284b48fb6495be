//! What holds of the normalizer, the unifier and the registry builder for all inputs.

use crate::normalize::{
    erase_args, erase_segment, erase_segments, erase_type, erase_types, lifetimes_of,
    lifetimes_of_args, lifetimes_of_segments, lifetimes_of_types, normalized,
};
use crate::decl::Item;
use crate::parse::{
    duplicate_types_map, item_role, items_outcome, lemma_items_outcome_failed, parse_outcome,
    BuildState, ItemRole,
};
use crate::registry::TypeMapModel;
use crate::source::DiagnosticModel;
use crate::normalize::{render_args, render_segment, render_segments, render_type};
use crate::queries::{rule_target, unbounded_params};
use crate::names::{unique_typename, unique_typename_if_need};
use crate::parse::{
    distinct_foreign_names, lemma_foreign_index, names_state_of, name_value_text,
    with_names_entry,
};
use crate::rule::{
    bound_satisfied, conv_possible, fresh_map, hint_name, resolved_map, RuleModel, TypeLookup,
};
use crate::trait_bounds::{first_bound_on, trait_bounds_of};
use crate::rust_type::RustTypeModel;
use crate::decl::Attribute;
use crate::text::replaced;
use crate::subst_map::{bind_entry, bound_type, entry_index, position_of, SubstEntry};
use crate::substitute::{substitute, substitute_args, substitute_segment, substitute_segments};
use crate::type_expr::{generic_type, ident_type, ArgModel, SegmentModel, TypeModel};
use crate::unify::{
    unbound_parameter, unify, unify_arg, unify_args, unify_path_args, unify_segments, unify_types,
};
use vstd::prelude::*;

verus! {

/// Erasing the first `k` generic arguments does not depend on what follows them.
pub proof fn lemma_erase_args_prefix(a: Seq<ArgModel>, b: Seq<ArgModel>, k: nat)
    requires
        k <= a.len(),
        k <= b.len(),
        forall|i: int| 0 <= i < k ==> a[i] == b[i],
    ensures
        erase_args(a, k) == erase_args(b, k),
    decreases k,
{
    if k > 0 {
        lemma_erase_args_prefix(a, b, (k - 1) as nat);
    }
}

/// Erasing the first `k` path segments does not depend on what follows them.
pub proof fn lemma_erase_segments_prefix(a: Seq<SegmentModel>, b: Seq<SegmentModel>, k: nat)
    requires
        k <= a.len(),
        k <= b.len(),
        forall|i: int| 0 <= i < k ==> a[i] == b[i],
    ensures
        erase_segments(a, k) == erase_segments(b, k),
        erase_segments(a, k).len() == k,
    decreases k,
{
    if k > 0 {
        lemma_erase_segments_prefix(a, b, (k - 1) as nat);
    }
}

/// Erasing the first `k` types does not depend on what follows them.
pub proof fn lemma_erase_types_prefix(a: Seq<TypeModel>, b: Seq<TypeModel>, k: nat)
    requires
        k <= a.len(),
        k <= b.len(),
        forall|i: int| 0 <= i < k ==> a[i] == b[i],
    ensures
        erase_types(a, k) == erase_types(b, k),
        erase_types(a, k).len() == k,
    decreases k,
{
    if k > 0 {
        lemma_erase_types_prefix(a, b, (k - 1) as nat);
    }
}

/// Erased generic arguments stay as they are when erased again.
pub proof fn lemma_erase_args_idempotent(args: Seq<ArgModel>, n: nat)
    requires
        n <= args.len(),
    ensures
        erase_args(erase_args(args, n), erase_args(args, n).len()) == erase_args(args, n),
    decreases args, n,
{
    if n > 0 {
        let before = erase_args(args, (n - 1) as nat);
        let now = erase_args(args, n);
        lemma_erase_args_idempotent(args, (n - 1) as nat);
        match args[n - 1] {
            ArgModel::Lifetime(_) => {},
            ArgModel::Type(t) => {
                lemma_erase_type_idempotent(t);
                lemma_erase_args_prefix(now, before, before.len());
            },
            ArgModel::Binding { ident: _, ty } => {
                lemma_erase_type_idempotent(ty);
                lemma_erase_args_prefix(now, before, before.len());
            },
            ArgModel::Other(_) => {
                lemma_erase_args_prefix(now, before, before.len());
            },
        }
    }
}

/// An erased path segment stays as it is when erased again.
pub proof fn lemma_erase_segment_idempotent(s: SegmentModel)
    ensures
        erase_segment(erase_segment(s)) == erase_segment(s),
    decreases s, 0nat,
{
    match s.arguments {
        Some(args) => {
            lemma_erase_args_idempotent(args, args.len());
        },
        None => {},
    }
}

/// Erased path segments stay as they are when erased again.
pub proof fn lemma_erase_segments_idempotent(segments: Seq<SegmentModel>, n: nat)
    requires
        n <= segments.len(),
    ensures
        erase_segments(segments, n).len() == n,
        erase_segments(erase_segments(segments, n), n) == erase_segments(segments, n),
    decreases segments, n,
{
    if n > 0 {
        let before = erase_segments(segments, (n - 1) as nat);
        let now = erase_segments(segments, n);
        lemma_erase_segments_idempotent(segments, (n - 1) as nat);
        lemma_erase_segment_idempotent(segments[n - 1]);
        lemma_erase_segments_prefix(now, before, (n - 1) as nat);
    }
}

/// Erased types stay as they are when erased again.
pub proof fn lemma_erase_types_idempotent(types: Seq<TypeModel>, n: nat)
    requires
        n <= types.len(),
    ensures
        erase_types(types, n).len() == n,
        erase_types(erase_types(types, n), n) == erase_types(types, n),
    decreases types, n,
{
    if n > 0 {
        let before = erase_types(types, (n - 1) as nat);
        let now = erase_types(types, n);
        lemma_erase_types_idempotent(types, (n - 1) as nat);
        lemma_erase_type_idempotent(types[n - 1]);
        lemma_erase_types_prefix(now, before, (n - 1) as nat);
    }
}

/// Erasing lifetimes is idempotent: a type without its lifetimes stays as it
/// is when its lifetimes are erased again.
pub proof fn lemma_erase_type_idempotent(t: TypeModel)
    ensures
        erase_type(erase_type(t)) == erase_type(t),
    decreases t, 0nat,
{
    match t {
        TypeModel::Path { global: _, segments } => {
            lemma_erase_segments_idempotent(segments, segments.len());
        },
        TypeModel::Reference { lifetime: _, mutable: _, elem } => {
            lemma_erase_type_idempotent(*elem);
        },
        TypeModel::Slice { elem } => {
            lemma_erase_type_idempotent(*elem);
        },
        TypeModel::Tuple { elems } => {
            lemma_erase_types_idempotent(elems, elems.len());
        },
        TypeModel::Around { prefix: _, elem, suffix: _ } => {
            lemma_erase_type_idempotent(*elem);
        },
        TypeModel::Other { text: _ } => {},
    }
}

/// Normalization is idempotent: the canonical name of a type is also the
/// canonical name of the type without its lifetimes.
pub proof fn law_normalize_idempotent(t: TypeModel)
    ensures
        normalized(erase_type(t)) == normalized(t),
{
    lemma_erase_type_idempotent(t);
}

/// Two types are lifetime variants of each other when they are the same type
/// once the lifetimes of both are erased.
pub open spec fn lifetime_variants(a: TypeModel, b: TypeModel) -> bool {
    erase_type(a) == erase_type(b)
}

/// Normalization erases lifetimes: two types that differ in their lifetimes
/// only have the same canonical name.
pub proof fn law_normalize_erases_lifetimes(a: TypeModel, b: TypeModel)
    requires
        lifetime_variants(a, b),
    ensures
        normalized(a) == normalized(b),
{
}

/// A type without its lifetimes is a lifetime variant of the type.
pub proof fn law_erased_is_variant(t: TypeModel)
    ensures
        lifetime_variants(erase_type(t), t),
{
    lemma_erase_type_idempotent(t);
}

/// Giving a reference a lifetime, taking it away or changing it gives a
/// lifetime variant of the reference, whatever the target.
pub proof fn law_reference_lifetime_is_erased(
    first: Option<Seq<char>>,
    second: Option<Seq<char>>,
    mutable: bool,
    a: TypeModel,
    b: TypeModel,
)
    requires
        lifetime_variants(a, b),
    ensures
        lifetime_variants(
            TypeModel::Reference { lifetime: first, mutable, elem: Box::new(a) },
            TypeModel::Reference { lifetime: second, mutable, elem: Box::new(b) },
        ),
{
}

/// Putting a lifetime argument into a list of generic arguments, at any
/// place, does not change what is left of the list once lifetimes are erased.
pub proof fn lemma_lifetime_argument_is_erased(args: Seq<ArgModel>, at: int, lifetime: Seq<char>)
    requires
        0 <= at <= args.len(),
    ensures
        erase_args(args.insert(at, ArgModel::Lifetime(lifetime)), (args.len() + 1) as nat)
            == erase_args(args, args.len()),
    decreases args.len() - at,
{
    let longer = args.insert(at, ArgModel::Lifetime(lifetime));
    if at == args.len() {
        lemma_erase_args_prefix(longer, args, args.len());
    } else {
        let shorter = args.drop_last();
        lemma_lifetime_argument_is_erased(shorter, at, lifetime);
        let inner = shorter.insert(at, ArgModel::Lifetime(lifetime));
        assert(longer.drop_last() =~= inner);
        lemma_erase_args_prefix(longer, inner, args.len());
        lemma_erase_args_prefix(args, shorter, shorter.len());
        assert(longer[args.len() as int] == args[args.len() - 1]);
    }
}

/// A generic type with one more lifetime argument, at any place among its
/// arguments, is a lifetime variant of the type without it.
pub proof fn law_lifetime_argument_is_erased(
    name: Seq<char>,
    args: Seq<ArgModel>,
    at: int,
    lifetime: Seq<char>,
)
    requires
        0 <= at <= args.len(),
    ensures
        lifetime_variants(
            TypeModel::Path {
                global: false,
                segments: seq![
                    SegmentModel {
                        ident: name,
                        arguments: Some(args.insert(at, ArgModel::Lifetime(lifetime))),
                    },
                ],
            },
            TypeModel::Path {
                global: false,
                segments: seq![SegmentModel { ident: name, arguments: Some(args) }],
            },
        ),
{
    lemma_lifetime_argument_is_erased(args, at, lifetime);
    let with = seq![
        SegmentModel { ident: name, arguments: Some(args.insert(at, ArgModel::Lifetime(lifetime))) },
    ];
    let without = seq![SegmentModel { ident: name, arguments: Some(args) }];
    assert(args.insert(at, ArgModel::Lifetime(lifetime)).len() == args.len() + 1);
    assert(erase_segment(with[0]) == erase_segment(without[0]));
    assert(erase_segments(with, 0) =~= erase_segments(without, 0));
    assert(erase_segments(with, 1) =~= erase_segments(without, 1));
}

/// The lifetimes of erased generic arguments: none.
pub proof fn lemma_erased_args_name_no_lifetime(args: Seq<ArgModel>, n: nat)
    requires
        n <= args.len(),
    ensures
        lifetimes_of_args(erase_args(args, n), erase_args(args, n).len()) == Seq::<
            Seq<char>,
        >::empty(),
    decreases args, n,
{
    if n > 0 {
        let before = erase_args(args, (n - 1) as nat);
        let now = erase_args(args, n);
        lemma_erased_args_name_no_lifetime(args, (n - 1) as nat);
        match args[n - 1] {
            ArgModel::Lifetime(_) => {},
            ArgModel::Type(t) => {
                lemma_erased_type_names_no_lifetime(t);
                lemma_lifetimes_of_args_prefix(now, before, before.len());
            },
            ArgModel::Binding { ident: _, ty } => {
                lemma_erased_type_names_no_lifetime(ty);
                lemma_lifetimes_of_args_prefix(now, before, before.len());
            },
            ArgModel::Other(_) => {
                lemma_lifetimes_of_args_prefix(now, before, before.len());
            },
        }
    }
}

/// The lifetimes of the first `k` generic arguments do not depend on what follows them.
pub proof fn lemma_lifetimes_of_args_prefix(a: Seq<ArgModel>, b: Seq<ArgModel>, k: nat)
    requires
        k <= a.len(),
        k <= b.len(),
        forall|i: int| 0 <= i < k ==> a[i] == b[i],
    ensures
        lifetimes_of_args(a, k) == lifetimes_of_args(b, k),
    decreases k,
{
    if k > 0 {
        lemma_lifetimes_of_args_prefix(a, b, (k - 1) as nat);
    }
}

/// The lifetimes of the first `k` path segments do not depend on what follows them.
pub proof fn lemma_lifetimes_of_segments_prefix(a: Seq<SegmentModel>, b: Seq<SegmentModel>, k: nat)
    requires
        k <= a.len(),
        k <= b.len(),
        forall|i: int| 0 <= i < k ==> a[i] == b[i],
    ensures
        lifetimes_of_segments(a, k) == lifetimes_of_segments(b, k),
    decreases k,
{
    if k > 0 {
        lemma_lifetimes_of_segments_prefix(a, b, (k - 1) as nat);
    }
}

/// The lifetimes of the first `k` types do not depend on what follows them.
pub proof fn lemma_lifetimes_of_types_prefix(a: Seq<TypeModel>, b: Seq<TypeModel>, k: nat)
    requires
        k <= a.len(),
        k <= b.len(),
        forall|i: int| 0 <= i < k ==> a[i] == b[i],
    ensures
        lifetimes_of_types(a, k) == lifetimes_of_types(b, k),
    decreases k,
{
    if k > 0 {
        lemma_lifetimes_of_types_prefix(a, b, (k - 1) as nat);
    }
}

/// The lifetimes of erased path segments: none.
pub proof fn lemma_erased_segments_name_no_lifetime(segments: Seq<SegmentModel>, n: nat)
    requires
        n <= segments.len(),
    ensures
        erase_segments(segments, n).len() == n,
        lifetimes_of_segments(erase_segments(segments, n), n) == Seq::<Seq<char>>::empty(),
    decreases segments, n,
{
    if n > 0 {
        let before = erase_segments(segments, (n - 1) as nat);
        let now = erase_segments(segments, n);
        lemma_erased_segments_name_no_lifetime(segments, (n - 1) as nat);
        lemma_lifetimes_of_segments_prefix(now, before, (n - 1) as nat);
        match segments[n - 1].arguments {
            Some(args) => {
                lemma_erased_args_name_no_lifetime(args, args.len());
            },
            None => {},
        }
        assert(now[n - 1] == erase_segment(segments[n - 1]));
        assert(lifetimes_of_segments(now, n) =~= Seq::<Seq<char>>::empty());
    }
}

/// The lifetimes of erased types: none.
pub proof fn lemma_erased_types_name_no_lifetime(types: Seq<TypeModel>, n: nat)
    requires
        n <= types.len(),
    ensures
        erase_types(types, n).len() == n,
        lifetimes_of_types(erase_types(types, n), n) == Seq::<Seq<char>>::empty(),
    decreases types, n,
{
    if n > 0 {
        let before = erase_types(types, (n - 1) as nat);
        let now = erase_types(types, n);
        lemma_erased_types_name_no_lifetime(types, (n - 1) as nat);
        lemma_lifetimes_of_types_prefix(now, before, (n - 1) as nat);
        lemma_erased_type_names_no_lifetime(types[n - 1]);
        assert(lifetimes_of_types(now, n) =~= Seq::<Seq<char>>::empty());
    }
}

/// What normalization names holds no lifetime: a type without its lifetimes
/// names none.
pub proof fn lemma_erased_type_names_no_lifetime(t: TypeModel)
    ensures
        lifetimes_of(erase_type(t)) == Seq::<Seq<char>>::empty(),
    decreases t, 0nat,
{
    match t {
        TypeModel::Path { global: _, segments } => {
            lemma_erased_segments_name_no_lifetime(segments, segments.len());
        },
        TypeModel::Reference { lifetime: _, mutable: _, elem } => {
            lemma_erased_type_names_no_lifetime(*elem);
        },
        TypeModel::Slice { elem } => {
            lemma_erased_type_names_no_lifetime(*elem);
        },
        TypeModel::Tuple { elems } => {
            lemma_erased_types_name_no_lifetime(elems, elems.len());
        },
        TypeModel::Around { prefix: _, elem, suffix: _ } => {
            lemma_erased_type_names_no_lifetime(*elem);
        },
        TypeModel::Other { text: _ } => {},
    }
}

/// The shape of a type.
pub enum Shape {
    Path,
    Reference,
    Slice,
    Tuple,
    Around,
    Other,
}

/// The shape of the type `t`.
pub open spec fn shape_of(t: TypeModel) -> Shape {
    match t {
        TypeModel::Path { .. } => Shape::Path,
        TypeModel::Reference { .. } => Shape::Reference,
        TypeModel::Slice { .. } => Shape::Slice,
        TypeModel::Tuple { .. } => Shape::Tuple,
        TypeModel::Around { .. } => Shape::Around,
        TypeModel::Other { .. } => Shape::Other,
    }
}

/// Types of different shapes never unify, and the attempt binds nothing.
pub proof fn law_shape_mismatch_fails(pattern: TypeModel, concrete: TypeModel, map: Seq<SubstEntry>)
    requires
        shape_of(pattern) != shape_of(concrete),
    ensures
        unify(pattern, concrete, map) == (false, map),
{
}

/// A reference never unifies with a reference of the other mutability,
/// whatever the targets and the lifetimes are: `&mut T` does not match `&T`.
pub proof fn law_mutability_mismatch_fails(
    pattern: TypeModel,
    concrete: TypeModel,
    map: Seq<SubstEntry>,
)
    requires
        pattern matches TypeModel::Reference { mutable: pm, .. } && concrete matches TypeModel::Reference {
            mutable: cm,
            ..
        } && pm != cm,
    ensures
        unify(pattern, concrete, map) == (false, map),
{
}

/// Tuples of different lengths never unify, and the attempt binds nothing.
pub proof fn law_tuple_arity_mismatch_fails(
    pattern: Seq<TypeModel>,
    concrete: Seq<TypeModel>,
    map: Seq<SubstEntry>,
)
    requires
        pattern.len() != concrete.len(),
    ensures
        unify(TypeModel::Tuple { elems: pattern }, TypeModel::Tuple { elems: concrete }, map) == (
            false,
            map,
        ),
{
}

/// Paths with different numbers of segments never unify, and the attempt binds nothing.
pub proof fn law_path_length_mismatch_fails(
    pattern: TypeModel,
    concrete: TypeModel,
    map: Seq<SubstEntry>,
)
    requires
        pattern matches TypeModel::Path { segments: p, .. } && concrete matches TypeModel::Path {
            segments: c,
            ..
        } && p.len() != c.len(),
    ensures
        unify(pattern, concrete, map) == (false, map),
{
}

/// A slice unifies with a slice exactly when the elements unify.
pub proof fn law_slices_unify_by_element(pattern: TypeModel, concrete: TypeModel, map: Seq<SubstEntry>)
    ensures
        unify(
            TypeModel::Slice { elem: Box::new(pattern) },
            TypeModel::Slice { elem: Box::new(concrete) },
            map,
        ) == unify(pattern, concrete, map),
{
}

/// The empty tuple unifies with the empty tuple, and binds nothing.
pub proof fn law_unit_unifies_with_unit(map: Seq<SubstEntry>)
    ensures
        unify(
            TypeModel::Tuple { elems: Seq::empty() },
            TypeModel::Tuple { elems: Seq::empty() },
            map,
        ) == (true, map),
{
    assert(crate::unify::unify_types(
        Seq::<TypeModel>::empty(),
        Seq::<TypeModel>::empty(),
        0,
        map,
    ) == (true, map));
}

/// While the build goes on, the builder remembers where the foreign type map
/// stands: the place of the one foreign type map among the declarations read.
pub proof fn lemma_types_map_span_is_kept(
    items: Seq<Item>,
    n: nat,
    target_pointer_width: usize,
    start: BuildState,
    first: int,
)
    requires
        n <= items.len(),
        0 <= first < n,
        item_role(items[first]) == ItemRole::ForeignTypesMap,
    ensures
        items_outcome(items, n, target_pointer_width, start) matches Ok(state)
            ==> state.types_map_span == Some(items[first].span),
    decreases n,
{
    if first < n - 1 {
        lemma_types_map_span_is_kept(items, (n - 1) as nat, target_pointer_width, start, first);
    }
}

/// Two foreign type maps in one input always end the build with the
/// diagnostic for a duplicate: it points at the second map and its remark
/// points at the first. The registry is never a merge of both. This holds
/// wherever the declarations before the second map raise no diagnostic of
/// their own.
pub proof fn law_duplicate_types_map_is_reported(
    items: Seq<Item>,
    target_pointer_width: usize,
    codes: Map<Seq<char>, Seq<char>>,
    first: int,
    second: int,
)
    requires
        0 <= first < second < items.len(),
        item_role(items[first]) == ItemRole::ForeignTypesMap,
        item_role(items[second]) == ItemRole::ForeignTypesMap,
        items_outcome(
            items,
            second as nat,
            target_pointer_width,
            BuildState { map: crate::parse::empty_registry(codes), types_map_span: None },
        ) is Ok,
    ensures
        parse_outcome(items, target_pointer_width, codes) == Err::<TypeMapModel, DiagnosticModel>(
            duplicate_types_map(items[second].span, items[first].span),
        ),
{
    let start = BuildState { map: crate::parse::empty_registry(codes), types_map_span: None };
    lemma_types_map_span_is_kept(items, second as nat, target_pointer_width, start, first);
    assert(items_outcome(items, (second + 1) as nat, target_pointer_width, start) == Err::<
        BuildState,
        DiagnosticModel,
    >(duplicate_types_map(items[second].span, items[first].span)));
    lemma_items_outcome_failed(
        items,
        (second + 1) as nat,
        items.len(),
        target_pointer_width,
        start,
    );
}

/// Whether none of the first `n` generic arguments touches the map: no type
/// argument goes by the name of a parameter, and none holds anything that does.
pub open spec fn args_avoid(args: Seq<ArgModel>, n: nat, map: Seq<SubstEntry>) -> bool
    decreases args, n,
{
    if n == 0 || n > args.len() {
        true
    } else {
        args_avoid(args, (n - 1) as nat, map) && match args[n - 1] {
            ArgModel::Type(t) => entry_index(map, normalized(t)) is None && avoids(t, map),
            _ => true,
        }
    }
}

/// Whether none of the first `n` path segments touches the map.
pub open spec fn segments_avoid(segments: Seq<SegmentModel>, n: nat, map: Seq<SubstEntry>) -> bool
    decreases segments, n,
{
    if n == 0 || n > segments.len() {
        true
    } else {
        segments_avoid(segments, (n - 1) as nat, map) && match segments[n - 1].arguments {
            Some(args) => args_avoid(args, args.len(), map),
            None => true,
        }
    }
}

/// Whether none of the first `n` types touches the map.
pub open spec fn types_avoid(types: Seq<TypeModel>, n: nat, map: Seq<SubstEntry>) -> bool
    decreases types, n,
{
    if n == 0 || n > types.len() {
        true
    } else {
        types_avoid(types, (n - 1) as nat, map) && avoids(types[n - 1], map)
    }
}

/// Whether a type does not touch the map: it is no unbound parameter, and
/// no type argument inside it goes by the name of a parameter.
pub open spec fn avoids(t: TypeModel, map: Seq<SubstEntry>) -> bool
    decreases t, 0nat,
{
    match t {
        TypeModel::Path { global: _, segments } => unbound_parameter(segments, map) is None
            && segments_avoid(segments, segments.len(), map),
        TypeModel::Reference { lifetime: _, mutable: _, elem } => avoids(*elem, map),
        TypeModel::Slice { elem } => avoids(*elem, map),
        TypeModel::Tuple { elems } => types_avoid(elems, elems.len(), map),
        TypeModel::Around { .. } => true,
        TypeModel::Other { text: _ } => true,
    }
}

/// Generic arguments that do not touch the map unify with themselves and bind nothing.
pub proof fn lemma_args_unify_with_themselves(args: Seq<ArgModel>, n: nat, map: Seq<SubstEntry>)
    requires
        n <= args.len(),
        args_avoid(args, n, map),
    ensures
        unify_args(args, args, n, map) == (true, map),
    decreases args, n,
{
    if n > 0 {
        lemma_args_unify_with_themselves(args, (n - 1) as nat, map);
        match args[n - 1] {
            ArgModel::Type(t) => {
                lemma_unifies_with_itself(t, map);
            },
            _ => {},
        }
        assert(unify_args(args, args, (n - 1) as nat, map) == (true, map));
        assert(unify_arg(args[n - 1], args[n - 1], map) == (true, map));
    }
}

/// Path segments that do not touch the map unify with themselves and bind nothing.
pub proof fn lemma_segments_unify_with_themselves(
    segments: Seq<SegmentModel>,
    n: nat,
    map: Seq<SubstEntry>,
)
    requires
        n <= segments.len(),
        segments_avoid(segments, n, map),
    ensures
        unify_segments(segments, segments, n, map) == (true, map),
    decreases segments, n,
{
    if n > 0 {
        lemma_segments_unify_with_themselves(segments, (n - 1) as nat, map);
        match segments[n - 1].arguments {
            Some(args) => {
                lemma_args_unify_with_themselves(args, args.len(), map);
            },
            None => {},
        }
        assert(unify_segments(segments, segments, (n - 1) as nat, map) == (true, map));
        assert(unify_path_args(segments[n - 1].arguments, segments[n - 1].arguments, map) == (
            true,
            map,
        ));
    }
}

/// Types that do not touch the map unify with themselves and bind nothing.
pub proof fn lemma_types_unify_with_themselves(types: Seq<TypeModel>, n: nat, map: Seq<SubstEntry>)
    requires
        n <= types.len(),
        types_avoid(types, n, map),
    ensures
        unify_types(types, types, n, map) == (true, map),
    decreases types, n,
{
    if n > 0 {
        lemma_types_unify_with_themselves(types, (n - 1) as nat, map);
        lemma_unifies_with_itself(types[n - 1], map);
    }
}

/// A type that does not touch the map unifies with itself and binds nothing.
pub proof fn lemma_unifies_with_itself(t: TypeModel, map: Seq<SubstEntry>)
    requires
        avoids(t, map),
    ensures
        unify(t, t, map) == (true, map),
    decreases t, 0nat,
{
    match t {
        TypeModel::Path { global: _, segments } => {
            lemma_segments_unify_with_themselves(segments, segments.len(), map);
        },
        TypeModel::Reference { lifetime: _, mutable: _, elem } => {
            lemma_unifies_with_itself(*elem, map);
        },
        TypeModel::Slice { elem } => {
            lemma_unifies_with_itself(*elem, map);
        },
        TypeModel::Tuple { elems } => {
            lemma_types_unify_with_themselves(elems, elems.len(), map);
        },
        TypeModel::Around { .. } => {},
        TypeModel::Other { text: _ } => {},
    }
}

/// The canonical name of a plain name is the name.
pub proof fn lemma_ident_type_name(name: Seq<char>)
    ensures
        normalized(ident_type(name)) == name,
{
    let segments = seq![SegmentModel { ident: name, arguments: None }];
    assert(erase_segments(segments, 0) =~= Seq::<SegmentModel>::empty());
    assert(erase_segment(segments[0]) == segments[0]);
    assert(erase_segments(segments, 1) == erase_segments(segments, 0).push(
        erase_segment(segments[0]),
    ));
    assert(erase_segments(segments, 1) =~= segments);
    assert(render_segments(segments, 1) == render_segment(segments[0]));
}

/// The map with the one parameter `param`, unbound.
pub open spec fn unbound_map(param: Seq<char>) -> Seq<SubstEntry> {
    seq![SubstEntry { ident: param, ty: None }]
}

/// The map with the one parameter `param`, bound to `ty`.
pub open spec fn bound_map(param: Seq<char>, ty: TypeModel) -> Seq<SubstEntry> {
    seq![SubstEntry { ident: param, ty: Some(ty) }]
}

/// The map that a rule with one parameter starts from holds that parameter, unbound.
pub proof fn lemma_fresh_map_of_one(param: Seq<char>)
    ensures
        fresh_map(unbounded_params(seq![param]), 1) == unbound_map(param),
{
    let params = unbounded_params(seq![param]);
    assert(fresh_map(params, 0) =~= Seq::<SubstEntry>::empty());
    assert(position_of(Seq::<SubstEntry>::empty(), param, 0) is None);
    assert(fresh_map(params, 1) =~= unbound_map(param));
}

/// Unification binds a parameter to what stands in its place: the pattern
/// `W<T>` matches every `W<X>` whose `X` does not touch the parameter, and
/// binds `T` to `X`.
pub proof fn law_wrapper_binds_parameter(wrapper: Seq<char>, param: Seq<char>, x: TypeModel)
    requires
        wrapper != param,
        avoids(x, bound_map(param, x)),
    ensures
        unify(
            generic_type(wrapper, seq![ident_type(param)]),
            generic_type(wrapper, seq![x]),
            unbound_map(param),
        ) == (true, bound_map(param, x)),
{
    let map = unbound_map(param);
    let bound = bound_map(param, x);
    let p_args = Seq::new(1, |i: int| ArgModel::Type(seq![ident_type(param)][i]));
    let c_args = Seq::new(1, |i: int| ArgModel::Type(seq![x][i]));
    let p = seq![SegmentModel { ident: wrapper, arguments: Some(p_args) }];
    let c = seq![SegmentModel { ident: wrapper, arguments: Some(c_args) }];
    lemma_ident_type_name(param);
    lemma_unifies_with_itself(x, bound);
    assert(position_of(map, wrapper, 0) is None);
    assert(position_of(map, wrapper, 1) is None);
    assert(unbound_parameter(p, map) is None);
    assert(position_of(map, param, 0) is None);
    assert(position_of(map, param, 1) == Some(0int));
    assert(bind_entry(map, 0, x) =~= bound);
    assert(unify_arg(p_args[0], c_args[0], map) == (true, bound));
    assert(unify_args(p_args, c_args, 0, map) == (true, map));
    assert(unify_args(p_args, c_args, 1, map) == (true, bound));
    assert(unify_path_args(Some(p_args), Some(c_args), map) == (true, bound));
    assert(unify_segments(p, c, 0, map) == (true, map));
    assert(unify_segments(p, c, 1, map) == (true, bound));
}

/// Unwrapping and wrapping again gives the type back: the rule `W<T> -> T`
/// turns `W<X>` into `X`, and the inverse rule `T -> W<T>` turns `X` into
/// `W<X>`. This holds for every `X` that is a plain or generic name and does
/// not touch the parameter.
pub proof fn law_unwrap_then_wrap_round_trip(wrapper: Seq<char>, param: Seq<char>, x: TypeModel)
    requires
        wrapper != param,
        x matches TypeModel::Path { segments, .. } && segments.len() == 1,
        avoids(x, bound_map(param, x)),
    ensures
        rule_target(
            generic_type(wrapper, seq![ident_type(param)]),
            ident_type(param),
            seq![param],
            generic_type(wrapper, seq![x]),
        ) == Some(x),
        rule_target(
            ident_type(param),
            generic_type(wrapper, seq![ident_type(param)]),
            seq![param],
            x,
        ) == Some(generic_type(wrapper, seq![x])),
{
    let map = unbound_map(param);
    let bound = bound_map(param, x);
    let wrapped_param = generic_type(wrapper, seq![ident_type(param)]);
    lemma_fresh_map_of_one(param);
    lemma_ident_type_name(param);
    law_wrapper_binds_parameter(wrapper, param, x);
    assert(position_of(bound, param, 0) is None);
    assert(position_of(bound, param, 1) == Some(0int));
    assert(bound_type(bound, param) == Some(x));
    assert(substitute(ident_type(param), bound) == x);

    let param_segments = seq![SegmentModel { ident: param, arguments: None }];
    assert(position_of(map, param, 0) is None);
    assert(position_of(map, param, 1) == Some(0int));
    assert(unbound_parameter(param_segments, map) == Some(0int));
    assert(bind_entry(map, 0, x) =~= bound);
    assert(unify(ident_type(param), x, map) == (true, bound));

    let p_args = Seq::new(1, |i: int| ArgModel::Type(seq![ident_type(param)][i]));
    let x_args = Seq::new(1, |i: int| ArgModel::Type(seq![x][i]));
    let p = seq![SegmentModel { ident: wrapper, arguments: Some(p_args) }];
    lemma_wrapped_name_is_longer(wrapper, param);
    assert(bound_type(bound, normalized(wrapped_param)) is None) by {
        assert(position_of(bound, normalized(wrapped_param), 0) is None);
        assert(position_of(bound, normalized(wrapped_param), 1) is None);
    }
    assert(substitute_args(p_args, 0, bound) =~= Seq::<ArgModel>::empty());
    assert(substitute_args(p_args, 1, bound) =~= x_args);
    assert(substitute_segments(p, 0, bound) =~= Seq::<SegmentModel>::empty());
    assert(substitute_segment(p[0], bound) == (SegmentModel {
        ident: wrapper,
        arguments: Some(x_args),
    }));
    assert(substitute_segments(p, 1, bound) == substitute_segments(p, 0, bound).push(
        substitute_segment(p[0], bound),
    ));
    assert(substitute_segments(p, 1, bound) =~= seq![
        SegmentModel { ident: wrapper, arguments: Some(x_args) },
    ]);
    assert(substitute(wrapped_param, bound) == generic_type(wrapper, seq![x]));
}

/// The canonical name of `W<T>` is longer than the name `T`.
pub proof fn lemma_wrapped_name_is_longer(wrapper: Seq<char>, param: Seq<char>)
    ensures
        normalized(generic_type(wrapper, seq![ident_type(param)])).len() > param.len(),
{
    let inner = seq![SegmentModel { ident: param, arguments: None }];
    let args = Seq::new(1, |i: int| ArgModel::Type(seq![ident_type(param)][i]));
    let segments = seq![SegmentModel { ident: wrapper, arguments: Some(args) }];
    assert(erase_segments(inner, 0) =~= Seq::<SegmentModel>::empty());
    assert(erase_segment(inner[0]) == inner[0]);
    assert(erase_segments(inner, 1) == erase_segments(inner, 0).push(erase_segment(inner[0])));
    assert(erase_segments(inner, 1) =~= inner);
    assert(erase_type(ident_type(param)) == ident_type(param));
    assert(erase_args(args, 0) =~= Seq::<ArgModel>::empty());
    assert(erase_args(args, 1) =~= args);
    assert(erase_segment(segments[0]) == segments[0]);
    assert(erase_segments(segments, 0) =~= Seq::<SegmentModel>::empty());
    assert(erase_segments(segments, 1) == erase_segments(segments, 0).push(
        erase_segment(segments[0]),
    ));
    assert(erase_segments(segments, 1) =~= segments);
    assert(render_segments(inner, 1) == render_segment(inner[0]));
    assert(render_type(ident_type(param)) == param);
    assert(crate::normalize::render_arg(args[0]) == param);
    assert(render_args(args, 1) == crate::normalize::render_arg(args[0]));
    assert(render_segments(segments, 1) == render_segment(segments[0]));
    assert(render_segment(segments[0]) == wrapper + " < "@ + param + " >"@);
    assert(erase_type(generic_type(wrapper, seq![ident_type(param)])) == generic_type(
        wrapper,
        seq![ident_type(param)],
    ));
    assert(normalized(generic_type(wrapper, seq![ident_type(param)])) == wrapper + " < "@ + param
        + " >"@);
    reveal_strlit(" >");
}

/// A suffix always makes a name another name: the unique name of a type
/// under a suffix is never the bare name.
pub proof fn law_suffixed_name_differs(name: Seq<char>, suffix: Seq<char>)
    ensures
        unique_typename_if_need(name, Some(suffix)) != unique_typename_if_need(name, None),
{
    assert(unique_typename(name, suffix).len() == name.len() + 1 + suffix.len());
}

/// Different suffixes make different names of one bare name.
pub proof fn law_suffixes_do_not_collide(name: Seq<char>, first: Seq<char>, second: Seq<char>)
    requires
        first != second,
    ensures
        unique_typename(name, first) != unique_typename(name, second),
{
    let a = unique_typename(name, first);
    let b = unique_typename(name, second);
    if a == b {
        let start = name.len() + 1;
        assert(a.subrange(start as int, a.len() as int) =~= first);
        assert(b.subrange(start as int, b.len() as int) =~= second);
    }
}

/// What a "to" hint does to a rule that applies: the destination type is
/// the one that the rule without the hint gives, and the unique name is that
/// rule's name made unique by the hint in which the parameter's name is
/// replaced by the canonical name of the bound type. It is never the name
/// that the rule without the hint gives. While the parameter is unbound the
/// hint changes nothing.
pub proof fn law_to_hint_names_the_destination<L: TypeLookup>(
    rule: RuleModel,
    ty: RustTypeModel,
    goal: Option<RustTypeModel>,
    others: &L,
    hint: Seq<char>,
)
    requires
        rule.to_foreigner_hint == Some(hint),
        conv_possible(rule, ty, goal, others) is Some,
    ensures
        ({
            let bare = RuleModel { to_foreigner_hint: None, ..rule };
            let params = rule.generic_params.type_params;
            let map = resolved_map(
                rule,
                goal,
                unify(rule.from_ty, ty.ty, fresh_map(params, params.len())).1,
            );
            let with_hint = conv_possible(rule, ty, goal, others)->0;
            let without = conv_possible(bare, ty, goal, others);
            let plain = without->0;
            &&& without is Some
            &&& plain.0 == with_hint.0
            &&& plain.1 == normalized(with_hint.0)
            &&& match hint_name(hint, map) {
                Some(suffix) => with_hint.1 == unique_typename(plain.1, suffix) && with_hint.1
                    != plain.1 && suffix == replaced(hint, map[0].ident, normalized(map[0].ty->0)),
                None => with_hint.1 == plain.1,
            }
        }),
{
    let bare = RuleModel { to_foreigner_hint: None, ..rule };
    let params = rule.generic_params.type_params;
    let map = resolved_map(
        rule,
        goal,
        unify(rule.from_ty, ty.ty, fresh_map(params, params.len())).1,
    );
    assert(resolved_map(
        bare,
        goal,
        unify(rule.from_ty, ty.ty, fresh_map(params, params.len())).1,
    ) == map);
    let plain = conv_possible(bare, ty, goal, others)->0;
    match hint_name(hint, map) {
        Some(suffix) => {
            law_suffixed_name_differs(plain.1, suffix);
        },
        None => {},
    }
}

/// The foreign type map never holds a foreign name twice: the entries that
/// are read have distinct foreign names, and the name that waits for its
/// host type is none of them, because naming a held name again ends the
/// reading with a diagnostic.
pub proof fn law_foreign_names_are_distinct(attrs: Seq<Attribute>, n: nat)
    requires
        n <= attrs.len(),
    ensures
        names_state_of(attrs, n) matches Ok(state) ==> distinct_foreign_names(state.entries) && (
        state.pending matches Some(foreign) ==> crate::parse::foreign_index(
            state.entries,
            foreign.name,
            state.entries.len(),
        ) is None),
    decreases n,
{
    if n > 0 {
        law_foreign_names_are_distinct(attrs, (n - 1) as nat);
        match (names_state_of(attrs, (n - 1) as nat), names_state_of(attrs, n)) {
            (Ok(state), Ok(next)) => {
                if next.entries != state.entries {
                    let foreign = state.pending->0;
                    let value = name_value_text(attrs[n - 1].meta->Ok_0)->0;
                    let rust_ty = crate::parse::host_type_of(value, attrs[n - 1].span)->Ok_0;
                    lemma_foreign_index(state.entries, foreign.name, state.entries.len());
                    assert(next.entries == with_names_entry(state.entries, foreign, rust_ty));
                }
            },
            _ => {},
        }
    }
}

/// A foreign type map that names a foreign type again is never read: where
/// the attributes before are in order, an attribute that names a foreign
/// type which has its host type already ends the reading with the
/// diagnostic for a duplicate. The diagnostic points at that attribute and
/// remarks where the type was named for the line that the map holds.
pub proof fn law_duplicate_foreign_name_is_reported(attrs: Seq<Attribute>, n: nat, name: Seq<char>)
    requires
        0 < n <= attrs.len(),
        names_state_of(attrs, (n - 1) as nat) matches Ok(state) && crate::parse::foreign_index(
            state.entries,
            name,
            state.entries.len(),
        ) is Some,
        attrs[n - 1].path@ == crate::parse::SWIG_FOREIGNER_TYPE@,
        attrs[n - 1].meta matches Ok(meta) && name_value_text(meta) == Some(name),
    ensures
        ({
            let state = names_state_of(attrs, (n - 1) as nat)->Ok_0;
            let first = crate::parse::foreign_index(state.entries, name, state.entries.len())->0;
            crate::parse::names_map_of(attrs) == Err::<
                Seq<crate::parse::NamesEntryModel>,
                DiagnosticModel,
            >(
                crate::parse::duplicate_foreign_name(
                    name,
                    attrs[n - 1].span,
                    state.entries[first].span,
                ),
            )
        }),
{
    crate::parse::lemma_names_state_failed(attrs, n, attrs.len());
}

/// A rule applies only where every bound parameter has the capabilities
/// asked of it: if the type that a parameter is bound to is not registered,
/// or is registered without one of the traits that the first bound on the
/// parameter names, the rule does not apply.
pub proof fn law_missing_capability_fails<L: TypeLookup>(
    rule: RuleModel,
    ty: RustTypeModel,
    goal: Option<RustTypeModel>,
    others: &L,
    param: int,
    asked: Seq<char>,
)
    requires
        ({
            let params = rule.generic_params.type_params;
            let map = unify(rule.from_ty, ty.ty, fresh_map(params, params.len())).1;
            let bounds = trait_bounds_of(rule.generic_params);
            &&& 0 <= param < map.len()
            &&& map[param].ty matches Some(bound)
            &&& first_bound_on(bounds, map[param].ident, bounds.len()) matches Some(index)
            &&& bounds[index as int].trait_names.contains(asked)
            &&& match others.known(normalized(bound)) {
                Some(registered) => !registered.implements.contains(asked),
                None => true,
            }
        }),
    ensures
        conv_possible(rule, ty, goal, others) is None,
{
    let params = rule.generic_params.type_params;
    let map = unify(rule.from_ty, ty.ty, fresh_map(params, params.len())).1;
    let bounds = trait_bounds_of(rule.generic_params);
    assert(!bound_satisfied(map[param], bounds, others));
}

/// Whether `after` is `before` with more parameters bound: the parameters
/// are the same, in the same order, and what was bound stays bound to the
/// same type.
pub open spec fn only_binds(before: Seq<SubstEntry>, after: Seq<SubstEntry>) -> bool {
    &&& after.len() == before.len()
    &&& forall|i: int|
        0 <= i < before.len() ==> (#[trigger] after[i]).ident == before[i].ident && (before[i].ty
            is Some ==> after[i].ty == before[i].ty)
}

/// Binding more after binding more is binding more.
pub proof fn lemma_only_binds_transitive(
    first: Seq<SubstEntry>,
    second: Seq<SubstEntry>,
    third: Seq<SubstEntry>,
)
    requires
        only_binds(first, second),
        only_binds(second, third),
    ensures
        only_binds(first, third),
{
    assert forall|i: int| 0 <= i < first.len() implies (#[trigger] third[i]).ident
        == first[i].ident && (first[i].ty is Some ==> third[i].ty == first[i].ty) by {
        assert(second[i].ident == first[i].ident);
    }
}

/// Binding an unbound entry only binds.
pub proof fn lemma_bind_only_binds(map: Seq<SubstEntry>, index: int, ty: TypeModel)
    requires
        0 <= index < map.len(),
        map[index].ty is None,
    ensures
        only_binds(map, bind_entry(map, index, ty)),
{
}

/// What `entry_index` finds is an entry of the map.
pub proof fn lemma_entry_index_range(map: Seq<SubstEntry>, name: Seq<char>)
    ensures
        entry_index(map, name) matches Some(i) ==> 0 <= i < map.len(),
{
    crate::subst_map::lemma_position_of(map, name, map.len());
}

/// Matching generic arguments only binds.
pub proof fn lemma_unify_args_only_binds(
    pattern: Seq<ArgModel>,
    concrete: Seq<ArgModel>,
    n: nat,
    map: Seq<SubstEntry>,
)
    ensures
        only_binds(map, unify_args(pattern, concrete, n, map).1),
    decreases concrete, n,
{
    if !(n == 0 || n > concrete.len() || n > pattern.len()) {
        lemma_unify_args_only_binds(pattern, concrete, (n - 1) as nat, map);
        let (ok, before) = unify_args(pattern, concrete, (n - 1) as nat, map);
        if ok {
            lemma_unify_arg_only_binds(pattern[n - 1], concrete[n - 1], before);
        }
    }
}

/// Matching one generic argument only binds.
pub proof fn lemma_unify_arg_only_binds(pattern: ArgModel, concrete: ArgModel, map: Seq<SubstEntry>)
    ensures
        only_binds(map, unify_arg(pattern, concrete, map).1),
    decreases concrete, 0nat,
{
    match (pattern, concrete) {
        (ArgModel::Type(p), ArgModel::Type(c)) => {
            lemma_entry_index_range(map, normalized(p));
            match entry_index(map, normalized(p)) {
                Some(i) => match map[i].ty {
                    Some(bound) => {
                        law_unify_only_binds(bound, c, map);
                    },
                    None => {
                        lemma_bind_only_binds(map, i, c);
                        law_unify_only_binds(c, c, bind_entry(map, i, c));
                    },
                },
                None => {
                    law_unify_only_binds(p, c, map);
                },
            }
        },
        _ => {},
    }
}

/// Matching path segments only binds.
pub proof fn lemma_unify_segments_only_binds(
    pattern: Seq<SegmentModel>,
    concrete: Seq<SegmentModel>,
    n: nat,
    map: Seq<SubstEntry>,
)
    ensures
        only_binds(map, unify_segments(pattern, concrete, n, map).1),
    decreases concrete, n,
{
    if !(n == 0 || n > concrete.len() || n > pattern.len()) {
        lemma_unify_segments_only_binds(pattern, concrete, (n - 1) as nat, map);
        let (ok, before) = unify_segments(pattern, concrete, (n - 1) as nat, map);
        if ok && pattern[n - 1].ident == concrete[n - 1].ident {
            match (pattern[n - 1].arguments, concrete[n - 1].arguments) {
                (Some(p), Some(c)) => {
                    if p.len() == c.len() {
                        lemma_unify_args_only_binds(p, c, c.len(), before);
                    }
                },
                _ => {},
            }
            let after = unify_path_args(
                pattern[n - 1].arguments,
                concrete[n - 1].arguments,
                before,
            ).1;
            assert(only_binds(before, after));
            lemma_only_binds_transitive(map, before, after);
        }
    }
}

/// Matching a list of types only binds.
pub proof fn lemma_unify_types_only_binds(
    pattern: Seq<TypeModel>,
    concrete: Seq<TypeModel>,
    n: nat,
    map: Seq<SubstEntry>,
)
    ensures
        only_binds(map, unify_types(pattern, concrete, n, map).1),
    decreases concrete, n,
{
    if !(n == 0 || n > concrete.len() || n > pattern.len()) {
        lemma_unify_types_only_binds(pattern, concrete, (n - 1) as nat, map);
        let (ok, before) = unify_types(pattern, concrete, (n - 1) as nat, map);
        if ok {
            law_unify_only_binds(pattern[n - 1], concrete[n - 1], before);
        }
    }
}

/// Unification only binds: whether it succeeds or fails, the map keeps its
/// parameters in their order, and a parameter that was bound stays bound to
/// the same type. Nothing is ever unbound, rebound or dropped.
pub proof fn law_unify_only_binds(pattern: TypeModel, concrete: TypeModel, map: Seq<SubstEntry>)
    ensures
        only_binds(map, unify(pattern, concrete, map).1),
    decreases concrete, 0nat,
{
    match (pattern, concrete) {
        (
            TypeModel::Path { global: _, segments: p },
            TypeModel::Path { global: _, segments: c },
        ) => {
            if p.len() == c.len() {
                match unbound_parameter(p, map) {
                    Some(i) => {
                        lemma_entry_index_range(map, p[0].ident);
                        lemma_bind_only_binds(map, i, concrete);
                    },
                    None => {
                        lemma_unify_segments_only_binds(p, c, c.len(), map);
                    },
                }
            }
        },
        (
            TypeModel::Reference { lifetime: _, mutable: pm, elem: p },
            TypeModel::Reference { lifetime: _, mutable: cm, elem: c },
        ) => {
            if pm == cm {
                law_unify_only_binds(*p, *c, map);
            }
        },
        (TypeModel::Slice { elem: p }, TypeModel::Slice { elem: c }) => {
            law_unify_only_binds(*p, *c, map);
        },
        (TypeModel::Tuple { elems: p }, TypeModel::Tuple { elems: c }) => {
            if p.len() == c.len() {
                lemma_unify_types_only_binds(p, c, c.len(), map);
            }
        },
        _ => {},
    }
}

/// Whether the first `n` generic arguments agree pairwise: two type
/// arguments agree as types do, any other two are equal.
pub open spec fn args_agree(a: Seq<ArgModel>, b: Seq<ArgModel>, n: nat) -> bool
    decreases b, n,
{
    if n == 0 || n > b.len() || n > a.len() {
        true
    } else {
        args_agree(a, b, (n - 1) as nat) && match (a[n - 1], b[n - 1]) {
            (ArgModel::Type(x), ArgModel::Type(y)) => agree(x, y),
            (x, y) => x == y,
        }
    }
}

/// Whether two generic argument lists agree: both are absent, or both are
/// written with the same number of arguments, which agree pairwise.
pub open spec fn path_args_agree(a: Option<Seq<ArgModel>>, b: Option<Seq<ArgModel>>) -> bool
    decreases b, 0nat,
{
    match (a, b) {
        (Some(x), Some(y)) => x.len() == y.len() && args_agree(x, y, y.len()),
        (None, None) => true,
        _ => false,
    }
}

/// Whether the first `n` path segments agree pairwise: the names are equal
/// and the generic arguments agree.
pub open spec fn segments_agree(a: Seq<SegmentModel>, b: Seq<SegmentModel>, n: nat) -> bool
    decreases b, n,
{
    if n == 0 || n > b.len() || n > a.len() {
        true
    } else {
        segments_agree(a, b, (n - 1) as nat) && a[n - 1].ident == b[n - 1].ident
            && path_args_agree(a[n - 1].arguments, b[n - 1].arguments)
    }
}

/// Whether the first `n` types agree pairwise.
pub open spec fn types_agree(a: Seq<TypeModel>, b: Seq<TypeModel>, n: nat) -> bool
    decreases b, n,
{
    if n == 0 || n > b.len() || n > a.len() {
        true
    } else {
        types_agree(a, b, (n - 1) as nat) && agree(a[n - 1], b[n - 1])
    }
}

/// Whether two types are the same up to the lifetimes of references and a
/// leading `::` of paths: paths agree segment by segment, references agree
/// in mutability and target, slices in their element, tuples element by
/// element, and anything else has to be equal.
pub open spec fn agree(a: TypeModel, b: TypeModel) -> bool
    decreases b, 0nat,
{
    match (a, b) {
        (
            TypeModel::Path { global: _, segments: p },
            TypeModel::Path { global: _, segments: c },
        ) => p.len() == c.len() && segments_agree(p, c, c.len()),
        (
            TypeModel::Reference { lifetime: _, mutable: pm, elem: p },
            TypeModel::Reference { lifetime: _, mutable: cm, elem: c },
        ) => pm == cm && agree(*p, *c),
        (TypeModel::Slice { elem: p }, TypeModel::Slice { elem: c }) => agree(*p, *c),
        (TypeModel::Tuple { elems: p }, TypeModel::Tuple { elems: c }) => p.len() == c.len()
            && types_agree(p, c, c.len()),
        _ => a == b,
    }
}

/// Generic arguments that do not touch the map match exactly the arguments
/// that agree with them, and bind nothing.
pub proof fn lemma_args_without_parameters(
    pattern: Seq<ArgModel>,
    concrete: Seq<ArgModel>,
    n: nat,
    map: Seq<SubstEntry>,
)
    requires
        n <= pattern.len(),
        n <= concrete.len(),
        args_avoid(pattern, n, map),
    ensures
        unify_args(pattern, concrete, n, map) == (args_agree(pattern, concrete, n), map),
    decreases concrete, n,
{
    if n > 0 {
        lemma_args_without_parameters(pattern, concrete, (n - 1) as nat, map);
        match (pattern[n - 1], concrete[n - 1]) {
            (ArgModel::Type(p), ArgModel::Type(c)) => {
                law_unification_without_parameters(p, c, map);
            },
            _ => {},
        }
        assert(unify_args(pattern, concrete, (n - 1) as nat, map) == (
            args_agree(pattern, concrete, (n - 1) as nat),
            map,
        ));
        if args_agree(pattern, concrete, (n - 1) as nat) {
            assert(unify_arg(pattern[n - 1], concrete[n - 1], map) == (
                match (pattern[n - 1], concrete[n - 1]) {
                    (ArgModel::Type(x), ArgModel::Type(y)) => agree(x, y),
                    (x, y) => x == y,
                },
                map,
            ));
        }
    }
}

/// Path segments that do not touch the map match exactly the segments that
/// agree with them, and bind nothing.
pub proof fn lemma_segments_without_parameters(
    pattern: Seq<SegmentModel>,
    concrete: Seq<SegmentModel>,
    n: nat,
    map: Seq<SubstEntry>,
)
    requires
        n <= pattern.len(),
        n <= concrete.len(),
        segments_avoid(pattern, n, map),
    ensures
        unify_segments(pattern, concrete, n, map) == (segments_agree(pattern, concrete, n), map),
    decreases concrete, n,
{
    if n > 0 {
        lemma_segments_without_parameters(pattern, concrete, (n - 1) as nat, map);
        match (pattern[n - 1].arguments, concrete[n - 1].arguments) {
            (Some(p), Some(c)) => {
                if p.len() == c.len() {
                    lemma_args_without_parameters(p, c, c.len(), map);
                }
            },
            _ => {},
        }
        assert(unify_segments(pattern, concrete, (n - 1) as nat, map) == (
            segments_agree(pattern, concrete, (n - 1) as nat),
            map,
        ));
        assert(unify_path_args(pattern[n - 1].arguments, concrete[n - 1].arguments, map) == (
            path_args_agree(pattern[n - 1].arguments, concrete[n - 1].arguments),
            map,
        ));
    }
}

/// Types that do not touch the map match exactly the types that agree with
/// them, and bind nothing.
pub proof fn lemma_types_without_parameters(
    pattern: Seq<TypeModel>,
    concrete: Seq<TypeModel>,
    n: nat,
    map: Seq<SubstEntry>,
)
    requires
        n <= pattern.len(),
        n <= concrete.len(),
        types_avoid(pattern, n, map),
    ensures
        unify_types(pattern, concrete, n, map) == (types_agree(pattern, concrete, n), map),
    decreases concrete, n,
{
    if n > 0 {
        lemma_types_without_parameters(pattern, concrete, (n - 1) as nat, map);
        law_unification_without_parameters(pattern[n - 1], concrete[n - 1], map);
        assert(unify_types(pattern, concrete, (n - 1) as nat, map) == (
            types_agree(pattern, concrete, (n - 1) as nat),
            map,
        ));
    }
}

/// Unification of a pattern without parameters is sound and complete: a
/// pattern that does not touch the map matches exactly the types that are
/// the same up to the lifetimes of references and a leading `::`, and the
/// attempt binds nothing, whether it succeeds or fails.
pub proof fn law_unification_without_parameters(
    pattern: TypeModel,
    concrete: TypeModel,
    map: Seq<SubstEntry>,
)
    requires
        avoids(pattern, map),
    ensures
        unify(pattern, concrete, map) == (agree(pattern, concrete), map),
    decreases concrete, 0nat,
{
    match (pattern, concrete) {
        (
            TypeModel::Path { global: _, segments: p },
            TypeModel::Path { global: _, segments: c },
        ) => {
            if p.len() == c.len() {
                lemma_segments_without_parameters(p, c, c.len(), map);
            }
        },
        (
            TypeModel::Reference { lifetime: _, mutable: pm, elem: p },
            TypeModel::Reference { lifetime: _, mutable: cm, elem: c },
        ) => {
            if pm == cm {
                law_unification_without_parameters(*p, *c, map);
            }
        },
        (TypeModel::Slice { elem: p }, TypeModel::Slice { elem: c }) => {
            law_unification_without_parameters(*p, *c, map);
        },
        (TypeModel::Tuple { elems: p }, TypeModel::Tuple { elems: c }) => {
            if p.len() == c.len() {
                lemma_types_without_parameters(p, c, c.len(), map);
            }
        },
        _ => {},
    }
}

} // verus!
