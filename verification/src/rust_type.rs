//! Registered types: a type expression, its unique name and what it is capable of.

use crate::names::{smol_as_str, smol_chars, smol_new};
use crate::source::SourceId;
use crate::type_expr::{TypeExpr, TypeModel};
use smol_str::SmolStr;
use vstd::prelude::*;
use vstd::string::*;

verus! {

/// A set of capability names: the traits that a type implements or that a
/// parameter asks for.
pub struct TraitNamesSet {
    inner: Vec<String>,
}

impl View for TraitNamesSet {
    type V = Set<Seq<char>>;

    closed spec fn view(&self) -> Set<Seq<char>> {
        Set::new(|name: Seq<char>| exists|i: int| 0 <= i < self.inner@.len() && self.inner@[i]@ == name)
    }
}

impl TraitNamesSet {
    /// The empty set.
    pub fn new() -> (r: TraitNamesSet)
        ensures
            r@ == Set::<Seq<char>>::empty(),
    {
        let r = TraitNamesSet { inner: Vec::new() };
        assert(r@ =~= Set::<Seq<char>>::empty());
        r
    }

    /// Whether `name` is in the set.
    pub fn contains(&self, name: &str) -> (r: bool)
        ensures
            r == self@.contains(name@),
    {
        let key = String::from_str(name);
        let mut i: usize = 0;
        while i < self.inner.len()
            invariant
                i <= self.inner.len(),
                key@ == name@,
                forall|j: int| 0 <= j < i ==> self.inner@[j]@ != name@,
            decreases self.inner.len() - i,
        {
            if self.inner[i] == key {
                return true;
            }
            i += 1;
        }
        false
    }

    /// Adds `name` to the set.
    pub fn insert(&mut self, name: &str)
        ensures
            final(self)@ == old(self)@.insert(name@),
    {
        if !self.contains(name) {
            self.inner.push(String::from_str(name));
            assert forall|n: Seq<char>| self@.contains(n) == old(self)@.insert(name@).contains(
                n,
            ) by {
                if self@.contains(n) {
                    let i = choose|i: int| 0 <= i < self.inner@.len() && self.inner@[i]@ == n;
                    if i < old(self).inner@.len() {
                        assert(old(self).inner@[i]@ == n);
                    }
                }
                if old(self)@.contains(n) {
                    let i = choose|i: int|
                        0 <= i < old(self).inner@.len() && old(self).inner@[i]@ == n;
                    assert(self.inner@[i]@ == n);
                }
                if n == name@ {
                    assert(self.inner@[self.inner@.len() - 1]@ == n);
                }
            }
            assert(self@ =~= old(self)@.insert(name@));
        } else {
            assert(self@ =~= old(self)@.insert(name@));
        }
    }

    /// Whether the set is empty.
    pub fn is_empty(&self) -> (r: bool)
        ensures
            r == (self@ == Set::<Seq<char>>::empty()),
    {
        if self.inner.len() == 0 {
            assert(self@ =~= Set::<Seq<char>>::empty());
            true
        } else {
            assert(self@.contains(self.inner@[0]@));
            false
        }
    }

    /// Whether every name of `subset` is in this set.
    pub fn contains_subset(&self, subset: &TraitNamesSet) -> (r: bool)
        ensures
            r == subset@.subset_of(self@),
    {
        let mut i: usize = 0;
        while i < subset.inner.len()
            invariant
                i <= subset.inner.len(),
                forall|j: int| 0 <= j < i ==> self@.contains(subset.inner@[j]@),
            decreases subset.inner.len() - i,
        {
            if !self.contains(subset.inner[i].as_str()) {
                assert(subset@.contains(subset.inner@[i as int]@));
                return false;
            }
            i += 1;
        }
        assert forall|n: Seq<char>| subset@.contains(n) implies self@.contains(n) by {
            let j = choose|j: int| 0 <= j < subset.inner@.len() && subset.inner@[j]@ == n;
            assert(self@.contains(subset.inner@[j]@));
        }
        true
    }
}

/// Mathematical model of [`RustType`].
pub struct RustTypeModel {
    pub src_id: SourceId,
    pub ty: TypeModel,
    pub normalized_name: Seq<char>,
    pub implements: Set<Seq<char>>,
}

/// A type as the registry knows it: the type expression, the unique name the
/// type goes by, and the capabilities declared for it.
pub struct RustType {
    pub src_id: SourceId,
    pub ty: TypeExpr,
    pub normalized_name: SmolStr,
    pub implements: TraitNamesSet,
}

impl View for RustType {
    type V = RustTypeModel;

    open spec fn view(&self) -> RustTypeModel {
        RustTypeModel {
            src_id: self.src_id,
            ty: self.ty@,
            normalized_name: smol_chars(self.normalized_name),
            implements: self.implements@,
        }
    }
}

impl RustType {
    /// A type that goes by `norm_name` and has no capability yet.
    pub fn new(ty: TypeExpr, norm_name: &str) -> (r: RustType)
        ensures
            r@ == (RustTypeModel {
                src_id: SourceId { id: None },
                ty: ty@,
                normalized_name: norm_name@,
                implements: Set::empty(),
            }),
    {
        RustType::new_without_graph_idx(ty, norm_name, SourceId::none())
    }

    /// A type read from the source `src_id` that goes by `norm_name` and has
    /// no capability yet.
    pub fn new_without_graph_idx(ty: TypeExpr, norm_name: &str, src_id: SourceId) -> (r: RustType)
        ensures
            r@ == (RustTypeModel {
                src_id,
                ty: ty@,
                normalized_name: norm_name@,
                implements: Set::empty(),
            }),
    {
        RustType {
            src_id,
            ty,
            normalized_name: smol_new(norm_name),
            implements: TraitNamesSet::new(),
        }
    }

    /// The same type with the capability `trait_name` added.
    pub fn implements(self, trait_name: &str) -> (r: RustType)
        ensures
            r@ == (RustTypeModel {
                src_id: self@.src_id,
                ty: self@.ty,
                normalized_name: self@.normalized_name,
                implements: self@.implements.insert(trait_name@),
            }),
    {
        let mut out = self;
        out.implements.insert(trait_name);
        out
    }

    /// The unique name the type goes by.
    pub fn name(&self) -> (r: &str)
        ensures
            r@ == self@.normalized_name,
    {
        smol_as_str(&self.normalized_name)
    }
}

} // verus!
