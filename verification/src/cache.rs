//! A memo of canonical names: each type expression is normalized once.

use crate::normalize::{normalize_ty_lifetimes, normalized};
use crate::type_expr::{TypeExpr, TypeModel};
use rustc_hash::FxHashMap;
use vstd::prelude::*;
use vstd::string::*;

verus! {

/// The memo of the normalizer: an `FxHashMap` from type expressions to their
/// canonical names.
#[verifier::external_body]
pub struct NormalizeTyLifetimesCache {
    inner: FxHashMap<TypeExpr, Box<str>>,
}

/// The names that a memo holds, by type.
pub uninterp spec fn cache_entries(cache: NormalizeTyLifetimesCache) -> Map<TypeModel, Seq<char>>;

/// The entries of a memo that holds nothing.
pub open spec fn no_entries() -> Map<TypeModel, Seq<char>> {
    Map::empty()
}

/// `FxHashMap::default`: the new map holds nothing.
#[verifier::external_body]
pub(crate) fn cache_new() -> (r: NormalizeTyLifetimesCache)
    ensures
        cache_entries(r) == no_entries(),
{
    NormalizeTyLifetimesCache { inner: FxHashMap::default() }
}

/// `HashMap::insert`: the map holds `val` for `ty`, and for every other type
/// what it held before.
#[verifier::external_body]
pub(crate) fn cache_insert(cache: &mut NormalizeTyLifetimesCache, ty: TypeExpr, val: String)
    ensures
        cache_entries(*final(cache)) == cache_entries(*old(cache)).insert(ty@, val@),
{
    cache.inner.insert(ty, val.into_boxed_str());
}

/// `HashMap::get`: what the map holds for `ty`, if anything.
#[verifier::external_body]
pub(crate) fn cache_get(cache: &NormalizeTyLifetimesCache, ty: &TypeExpr) -> (r: Option<String>)
    ensures
        match r {
            Some(name) => cache_entries(*cache).contains_key(ty@) && cache_entries(*cache)[ty@]
                == name@,
            None => !cache_entries(*cache).contains_key(ty@),
        },
{
    cache.inner.get(ty).map(|name| name.to_string())
}

impl NormalizeTyLifetimesCache {
    /// The invariant of the memo: what it holds for a type is the canonical
    /// name of that type.
    pub open spec fn wf(&self) -> bool {
        forall|t: TypeModel| #[trigger]
            cache_entries(*self).contains_key(t) ==> cache_entries(*self)[t] == normalized(t)
    }

    /// An empty memo.
    pub fn new() -> (r: NormalizeTyLifetimesCache)
        ensures
            cache_entries(r) == no_entries(),
            r.wf(),
    {
        cache_new()
    }

    /// Records the canonical name `val` of `ty` and hands it back.
    pub fn insert(&mut self, ty: &TypeExpr, val: String) -> (r: String)
        requires
            old(self).wf(),
            val@ == normalized(ty@),
        ensures
            final(self).wf(),
            cache_entries(*final(self)) == cache_entries(*old(self)).insert(ty@, val@),
            r@ == val@,
    {
        let name = val.clone();
        cache_insert(self, ty.clone_type(), val);
        name
    }

    /// The canonical name recorded for `ty`, if one is.
    pub fn get(&self, ty: &TypeExpr) -> (r: Option<String>)
        ensures
            match r {
                Some(name) => cache_entries(*self).contains_key(ty@) && cache_entries(*self)[ty@]
                    == name@,
                None => !cache_entries(*self).contains_key(ty@),
            },
    {
        cache_get(self, ty)
    }

    /// The canonical name of `ty`: looked up where the memo holds it, computed
    /// and recorded where it does not.
    pub fn normalize_ty_lifetimes(&mut self, ty: &TypeExpr) -> (r: String)
        requires
            old(self).wf(),
        ensures
            r@ == normalized(ty@),
            final(self).wf(),
            cache_entries(*final(self)) == cache_entries(*old(self)).insert(ty@, normalized(ty@)),
    {
        match self.get(ty) {
            Some(cached_str) => {
                assert(cache_entries(*self) =~= cache_entries(*self).insert(ty@, normalized(ty@)));
                cached_str
            },
            None => {
                let type_str = normalize_ty_lifetimes(ty);
                self.insert(ty, type_str)
            },
        }
    }
}

} // verus!
