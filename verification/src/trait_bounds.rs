//! The capability bounds of a rule: which traits each generic parameter asks for.

use crate::normalize::{normalize_ty_lifetimes, normalized};
use crate::rust_type::TraitNamesSet;
use crate::source::Span;
use crate::type_expr::{TypeExpr, TypeModel};
use smallvec::SmallVec;
use vstd::prelude::*;
use vstd::string::*;

verus! {

/// One bound of a generic parameter or of a `where` predicate.
pub enum TypeParamBound {
    /// A trait, held as the token text of its path.
    Trait(String),
    /// A lifetime, held without its apostrophe.
    Lifetime(String),
}

/// Mathematical model of [`TypeParamBound`].
pub enum BoundModel {
    Trait(Seq<char>),
    Lifetime(Seq<char>),
}

impl View for TypeParamBound {
    type V = BoundModel;

    open spec fn view(&self) -> BoundModel {
        match self {
            TypeParamBound::Trait(t) => BoundModel::Trait(t@),
            TypeParamBound::Lifetime(l) => BoundModel::Lifetime(l@),
        }
    }
}

/// The models of a list of bounds.
pub open spec fn bounds_model(bounds: Seq<TypeParamBound>) -> Seq<BoundModel> {
    Seq::new(bounds.len(), |i: int| bounds[i]@)
}

/// A declared generic type parameter with its bounds.
pub struct TypeParam {
    pub ident: String,
    pub bounds: Vec<TypeParamBound>,
}

/// Mathematical model of [`TypeParam`].
pub struct TypeParamModel {
    pub ident: Seq<char>,
    pub bounds: Seq<BoundModel>,
}

impl View for TypeParam {
    type V = TypeParamModel;

    open spec fn view(&self) -> TypeParamModel {
        TypeParamModel { ident: self.ident@, bounds: bounds_model(self.bounds@) }
    }
}

/// A predicate of a `where` clause.
pub enum WherePredicate {
    /// A type and the bounds put on it.
    Type { bounded_ty: TypeExpr, bounds: Vec<TypeParamBound> },
    /// A predicate that bounds no type.
    Other,
}

/// Mathematical model of [`WherePredicate`].
pub enum PredicateModel {
    Type { bounded_ty: TypeModel, bounds: Seq<BoundModel> },
    Other,
}

impl View for WherePredicate {
    type V = PredicateModel;

    open spec fn view(&self) -> PredicateModel {
        match self {
            WherePredicate::Type { bounded_ty, bounds } => PredicateModel::Type {
                bounded_ty: bounded_ty@,
                bounds: bounds_model(bounds@),
            },
            WherePredicate::Other => PredicateModel::Other,
        }
    }
}

/// The generic parameters of a declaration: its type parameters in order and
/// the predicates of its `where` clause.
pub struct Generics {
    pub span: Span,
    pub type_params: Vec<TypeParam>,
    pub where_clause: Option<Vec<WherePredicate>>,
}

/// Mathematical model of [`Generics`].
pub struct GenericsModel {
    pub span: Span,
    pub type_params: Seq<TypeParamModel>,
    pub where_clause: Option<Seq<PredicateModel>>,
}

impl View for Generics {
    type V = GenericsModel;

    open spec fn view(&self) -> GenericsModel {
        GenericsModel {
            span: self.span,
            type_params: Seq::new(self.type_params@.len(), |i: int| self.type_params@[i]@),
            where_clause: match self.where_clause {
                Some(w) => Some(Seq::new(w@.len(), |i: int| w@[i]@)),
                None => None,
            },
        }
    }
}

/// A copy of a list of bounds.
pub fn clone_bounds(bounds: &Vec<TypeParamBound>) -> (r: Vec<TypeParamBound>)
    ensures
        bounds_model(r@) == bounds_model(bounds@),
{
    let mut out: Vec<TypeParamBound> = Vec::new();
    let mut i: usize = 0;
    while i < bounds.len()
        invariant
            i <= bounds.len(),
            out@.len() == i,
            forall|j: int| 0 <= j < i ==> out@[j]@ == bounds@[j]@,
        decreases bounds.len() - i,
    {
        let b = match &bounds[i] {
            TypeParamBound::Trait(t) => TypeParamBound::Trait(t.clone()),
            TypeParamBound::Lifetime(l) => TypeParamBound::Lifetime(l.clone()),
        };
        out.push(b);
        i += 1;
    }
    assert(bounds_model(out@) =~= bounds_model(bounds@));
    out
}

impl Generics {
    /// A deep copy.
    pub fn clone_generics(&self) -> (r: Generics)
        ensures
            r@ == self@,
    {
        let mut type_params: Vec<TypeParam> = Vec::new();
        let mut i: usize = 0;
        while i < self.type_params.len()
            invariant
                i <= self.type_params.len(),
                type_params@.len() == i,
                forall|j: int| 0 <= j < i ==> type_params@[j]@ == self.type_params@[j]@,
            decreases self.type_params.len() - i,
        {
            let p = &self.type_params[i];
            type_params.push(TypeParam { ident: p.ident.clone(), bounds: clone_bounds(&p.bounds) });
            i += 1;
        }
        let where_clause = match &self.where_clause {
            Some(predicates) => {
                let mut out: Vec<WherePredicate> = Vec::new();
                let mut j: usize = 0;
                while j < predicates.len()
                    invariant
                        j <= predicates.len(),
                        out@.len() == j,
                        forall|k: int| 0 <= k < j ==> out@[k]@ == predicates@[k]@,
                    decreases predicates.len() - j,
                {
                    let w = match &predicates[j] {
                        WherePredicate::Type { bounded_ty, bounds } => WherePredicate::Type {
                            bounded_ty: bounded_ty.clone_type(),
                            bounds: clone_bounds(bounds),
                        },
                        WherePredicate::Other => WherePredicate::Other,
                    };
                    out.push(w);
                    j += 1;
                }
                assert(Seq::new(out@.len(), |i: int| out@[i]@) =~= Seq::new(
                    predicates@.len(),
                    |i: int| predicates@[i]@,
                ));
                Some(out)
            },
            None => None,
        };
        let r = Generics { span: self.span, type_params, where_clause };
        assert(r@.type_params =~= self@.type_params);
        r
    }
}

/// The trait names among the first `n` bounds.
pub open spec fn trait_names(bounds: Seq<BoundModel>, n: nat) -> Set<Seq<char>>
    decreases n,
{
    if n == 0 || n > bounds.len() {
        Set::empty()
    } else {
        let before = trait_names(bounds, (n - 1) as nat);
        match bounds[n - 1] {
            BoundModel::Trait(t) => before.insert(t),
            BoundModel::Lifetime(_) => before,
        }
    }
}

/// What a parameter, or a type of a `where` predicate, asks for.
pub struct GenericTraitBound {
    pub ty_param: String,
    pub trait_names: TraitNamesSet,
}

/// Mathematical model of [`GenericTraitBound`].
pub struct TraitBoundModel {
    pub ty_param: Seq<char>,
    pub trait_names: Set<Seq<char>>,
}

impl View for GenericTraitBound {
    type V = TraitBoundModel;

    open spec fn view(&self) -> TraitBoundModel {
        TraitBoundModel { ty_param: self.ty_param@, trait_names: self.trait_names@ }
    }
}

/// The bounds that the first `n` type parameters give: one for each parameter
/// that asks for at least one trait, under the parameter's name.
pub open spec fn param_bounds(params: Seq<TypeParamModel>, n: nat) -> Seq<TraitBoundModel>
    decreases n,
{
    if n == 0 || n > params.len() {
        Seq::empty()
    } else {
        let before = param_bounds(params, (n - 1) as nat);
        let p = params[n - 1];
        let names = trait_names(p.bounds, p.bounds.len());
        if names == Set::<Seq<char>>::empty() {
            before
        } else {
            before.push(TraitBoundModel { ty_param: p.ident, trait_names: names })
        }
    }
}

/// The bounds that the first `n` predicates give: one for each predicate that
/// asks a type for at least one trait, under the canonical name of that type.
pub open spec fn predicate_bounds(predicates: Seq<PredicateModel>, n: nat) -> Seq<TraitBoundModel>
    decreases n,
{
    if n == 0 || n > predicates.len() {
        Seq::empty()
    } else {
        let before = predicate_bounds(predicates, (n - 1) as nat);
        match predicates[n - 1] {
            PredicateModel::Type { bounded_ty, bounds } => {
                let names = trait_names(bounds, bounds.len());
                if names == Set::<Seq<char>>::empty() {
                    before
                } else {
                    before.push(
                        TraitBoundModel { ty_param: normalized(bounded_ty), trait_names: names },
                    )
                }
            },
            PredicateModel::Other => before,
        }
    }
}

/// The capability bounds of a declaration: those of its type parameters, then
/// those of its `where` clause.
pub open spec fn trait_bounds_of(generics: GenericsModel) -> Seq<TraitBoundModel> {
    param_bounds(generics.type_params, generics.type_params.len()) + match generics.where_clause {
        Some(w) => predicate_bounds(w, w.len()),
        None => Seq::empty(),
    }
}

/// The list of bounds that `get_trait_bounds` fills: a `SmallVec` that keeps
/// up to ten bounds in place.
#[verifier::external_body]
pub struct GenericTraitBoundVec {
    inner: SmallVec<[GenericTraitBound; 10]>,
}

/// The bounds that a list holds, in the order in which they were pushed.
pub uninterp spec fn bound_items(v: GenericTraitBoundVec) -> Seq<TraitBoundModel>;

/// `SmallVec::new`: the new list holds nothing.
#[verifier::external_body]
pub(crate) fn bounds_new() -> (r: GenericTraitBoundVec)
    ensures
        bound_items(r) == Seq::<TraitBoundModel>::empty(),
{
    GenericTraitBoundVec { inner: SmallVec::new() }
}

/// `SmallVec::push`: the item becomes the last one and the others stay.
#[verifier::external_body]
pub(crate) fn bounds_push(v: &mut GenericTraitBoundVec, item: GenericTraitBound)
    ensures
        bound_items(*final(v)) == bound_items(*old(v)).push(item@),
{
    v.inner.push(item)
}

/// `SmallVec::len`: the number of items.
#[verifier::external_body]
pub(crate) fn bounds_len(v: &GenericTraitBoundVec) -> (r: usize)
    ensures
        r == bound_items(*v).len(),
{
    v.inner.len()
}

/// Indexing a `SmallVec`: the item at `index`.
#[verifier::external_body]
pub(crate) fn bounds_get(v: &GenericTraitBoundVec, index: usize) -> (r: &GenericTraitBound)
    requires
        index < bound_items(*v).len(),
    ensures
        r@ == bound_items(*v)[index as int],
{
    &v.inner[index]
}

impl GenericTraitBoundVec {
    /// A list that holds nothing.
    pub fn new() -> (r: GenericTraitBoundVec)
        ensures
            bound_items(r) == Seq::<TraitBoundModel>::empty(),
    {
        bounds_new()
    }

    /// Adds `item` behind the others.
    pub fn push(&mut self, item: GenericTraitBound)
        ensures
            bound_items(*final(self)) == bound_items(*old(self)).push(item@),
    {
        bounds_push(self, item)
    }

    /// The number of bounds.
    pub fn len(&self) -> (r: usize)
        ensures
            r == bound_items(*self).len(),
    {
        bounds_len(self)
    }

    /// The bound at `index`, if there is one.
    pub fn get(&self, index: usize) -> (r: Option<&GenericTraitBound>)
        ensures
            match r {
                Some(b) => index < bound_items(*self).len() && b@ == bound_items(*self)[index as int],
                None => index >= bound_items(*self).len(),
            },
    {
        if index < bounds_len(self) {
            Some(bounds_get(self, index))
        } else {
            None
        }
    }

    /// The index of the first bound on `name`.
    pub fn position(&self, name: &str) -> (r: Option<usize>)
        ensures
            r == first_bound_on(bound_items(*self), name@, bound_items(*self).len()),
            r matches Some(i) ==> i < bound_items(*self).len(),
    {
        let key = String::from_str(name);
        let mut i: usize = 0;
        while i < bounds_len(self)
            invariant
                i <= bound_items(*self).len(),
                key@ == name@,
                first_bound_on(bound_items(*self), name@, i as nat) is None,
            decreases bound_items(*self).len() - i,
        {
            if bounds_get(self, i).ty_param == key {
                proof {
                    lemma_first_bound_stable(
                        bound_items(*self),
                        name@,
                        (i + 1) as nat,
                        bound_items(*self).len(),
                    );
                }
                return Some(i);
            }
            i += 1;
        }
        None
    }
}

/// The index of the first bound on `name` among the first `n` bounds.
pub open spec fn first_bound_on(bounds: Seq<TraitBoundModel>, name: Seq<char>, n: nat) -> Option<
    usize,
>
    decreases n,
{
    if n == 0 || n > bounds.len() {
        None
    } else {
        match first_bound_on(bounds, name, (n - 1) as nat) {
            Some(i) => Some(i),
            None => if bounds[n - 1].ty_param == name {
                Some((n - 1) as usize)
            } else {
                None
            },
        }
    }
}

/// Once the first bound on a name is found, looking further finds the same one.
pub proof fn lemma_first_bound_stable(bounds: Seq<TraitBoundModel>, name: Seq<char>, n: nat, m: nat)
    requires
        n <= m <= bounds.len(),
        first_bound_on(bounds, name, n) is Some,
    ensures
        first_bound_on(bounds, name, m) == first_bound_on(bounds, name, n),
    decreases m,
{
    if n < m {
        lemma_first_bound_stable(bounds, name, n, (m - 1) as nat);
    }
}

/// Collects the trait names among `bounds`.
pub fn collect_trait_names(bounds: &Vec<TypeParamBound>) -> (r: TraitNamesSet)
    ensures
        r@ == trait_names(bounds_model(bounds@), bounds@.len()),
{
    let mut names = TraitNamesSet::new();
    let mut i: usize = 0;
    while i < bounds.len()
        invariant
            i <= bounds.len(),
            names@ == trait_names(bounds_model(bounds@), i as nat),
        decreases bounds.len() - i,
    {
        match &bounds[i] {
            TypeParamBound::Trait(path) => {
                names.insert(path.as_str());
            },
            TypeParamBound::Lifetime(_) => {},
        }
        i += 1;
    }
    names
}

/// Reads the capability bounds of a declaration: for each type parameter that
/// asks for a trait, and then for each type that the `where` clause asks a
/// trait of, the set of traits asked for. What asks for no trait is left out.
pub fn get_trait_bounds(generic: &Generics) -> (r: GenericTraitBoundVec)
    ensures
        bound_items(r) == trait_bounds_of(generic@),
{
    let mut ret = bounds_new();
    let ghost params = generic@.type_params;
    let mut i: usize = 0;
    while i < generic.type_params.len()
        invariant
            i <= generic.type_params.len(),
            params == generic@.type_params,
            bound_items(ret) == param_bounds(params, i as nat),
        decreases generic.type_params.len() - i,
    {
        let ty_p = &generic.type_params[i];
        assert(params[i as int] == ty_p@);
        let names = collect_trait_names(&ty_p.bounds);
        if !names.is_empty() {
            bounds_push(&mut ret, GenericTraitBound { ty_param: ty_p.ident.clone(), trait_names: names });
        }
        i += 1;
    }
    match &generic.where_clause {
        Some(predicates) => {
            let ghost first = bound_items(ret);
            let ghost preds = generic@.where_clause->0;
            let mut j: usize = 0;
            while j < predicates.len()
                invariant
                    j <= predicates.len(),
                    preds.len() == predicates@.len(),
                    forall|k: int| 0 <= k < preds.len() ==> preds[k] == (#[trigger] predicates@[k])@,
                    bound_items(ret) == first + predicate_bounds(preds, j as nat),
                decreases predicates.len() - j,
            {
                match &predicates[j] {
                    WherePredicate::Type { bounded_ty, bounds } => {
                        let names = collect_trait_names(bounds);
                        if !names.is_empty() {
                            let ty_param = normalize_ty_lifetimes(bounded_ty);
                            bounds_push(&mut ret, GenericTraitBound { ty_param, trait_names: names });
                        }
                    },
                    WherePredicate::Other => {},
                }
                assert(bound_items(ret) =~= first + predicate_bounds(preds, (j + 1) as nat));
                j += 1;
            }
        },
        None => {
            assert(bound_items(ret) =~= trait_bounds_of(generic@));
        },
    }
    ret
}

} // verus!
