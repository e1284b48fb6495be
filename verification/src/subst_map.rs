//! The substitution map: which type each generic parameter of a rule stands for.

use crate::type_expr::{TypeExpr, TypeModel};
use vstd::prelude::*;
use vstd::string::*;

verus! {

/// One entry of a substitution map: a parameter and, once resolved, its type.
pub struct TyParamsSubstItem {
    pub ident: String,
    pub ty: Option<TypeExpr>,
}

/// Mathematical model of [`TyParamsSubstItem`].
pub struct SubstEntry {
    pub ident: Seq<char>,
    pub ty: Option<TypeModel>,
}

impl View for TyParamsSubstItem {
    type V = SubstEntry;

    open spec fn view(&self) -> SubstEntry {
        SubstEntry {
            ident: self.ident@,
            ty: match self.ty {
                Some(t) => Some(t@),
                None => None,
            },
        }
    }
}

/// The index of the entry for `name` among the first `n` entries, if there is one.
pub open spec fn position_of(entries: Seq<SubstEntry>, name: Seq<char>, n: nat) -> Option<int>
    decreases n,
{
    if n == 0 || n > entries.len() {
        None
    } else {
        match position_of(entries, name, (n - 1) as nat) {
            Some(i) => Some(i),
            None => if entries[n - 1].ident == name {
                Some(n - 1)
            } else {
                None
            },
        }
    }
}

/// The index of the entry for `name`, if there is one.
pub open spec fn entry_index(entries: Seq<SubstEntry>, name: Seq<char>) -> Option<int> {
    position_of(entries, name, entries.len())
}

/// What `name` is bound to: `None` where the map has no such parameter or has
/// not resolved it yet.
pub open spec fn bound_type(entries: Seq<SubstEntry>, name: Seq<char>) -> Option<TypeModel> {
    match entry_index(entries, name) {
        Some(i) => entries[i].ty,
        None => None,
    }
}

/// The map with the entry at `index` bound to `ty`.
pub open spec fn bind_entry(entries: Seq<SubstEntry>, index: int, ty: TypeModel) -> Seq<
    SubstEntry,
> {
    entries.update(index, SubstEntry { ident: entries[index].ident, ty: Some(ty) })
}

/// No parameter occurs twice.
pub open spec fn distinct_idents(entries: Seq<SubstEntry>) -> bool {
    forall|i: int, j: int|
        0 <= i < j < entries.len() ==> (#[trigger] entries[i]).ident != (#[trigger] entries[j]).ident
}

/// `position_of` finds an entry exactly where one with that name exists, and
/// the one it finds is the first.
pub proof fn lemma_position_of(entries: Seq<SubstEntry>, name: Seq<char>, n: nat)
    requires
        n <= entries.len(),
    ensures
        match position_of(entries, name, n) {
            Some(i) => 0 <= i < n && entries[i].ident == name && forall|j: int|
                0 <= j < i ==> (#[trigger] entries[j]).ident != name,
            None => forall|j: int| 0 <= j < n ==> (#[trigger] entries[j]).ident != name,
        },
    decreases n,
{
    if n > 0 {
        lemma_position_of(entries, name, (n - 1) as nat);
    }
}

/// An ordered map from generic parameters to the types bound to them.
pub struct TyParamsSubstMap {
    inner: Vec<TyParamsSubstItem>,
}

impl View for TyParamsSubstMap {
    type V = Seq<SubstEntry>;

    closed spec fn view(&self) -> Seq<SubstEntry> {
        Seq::new(self.inner@.len(), |i: int| self.inner@[i]@)
    }
}

impl TyParamsSubstMap {
    /// The invariant of the map: no parameter occurs twice.
    pub open spec fn wf(&self) -> bool {
        distinct_idents(self@)
    }

    /// An empty map.
    pub fn new() -> (r: TyParamsSubstMap)
        ensures
            r@ == Seq::<SubstEntry>::empty(),
            r.wf(),
    {
        let r = TyParamsSubstMap { inner: Vec::new() };
        assert(r@ =~= Seq::<SubstEntry>::empty());
        r
    }

    /// The number of parameters.
    pub fn len(&self) -> (r: usize)
        ensures
            r == self@.len(),
    {
        self.inner.len()
    }

    /// The entries in the order in which the parameters were declared.
    pub fn as_slice(&self) -> (r: &[TyParamsSubstItem])
        ensures
            r@.len() == self@.len(),
            forall|i: int| 0 <= i < r@.len() ==> (#[trigger] r@[i])@ == self@[i],
    {
        self.inner.as_slice()
    }

    /// The index of the entry for `name`.
    pub fn position(&self, name: &str) -> (r: Option<usize>)
        ensures
            match r {
                Some(i) => entry_index(self@, name@) == Some(i as int) && i < self@.len(),
                None => entry_index(self@, name@) is None,
            },
    {
        let key = String::from_str(name);
        let mut i: usize = 0;
        while i < self.inner.len()
            invariant
                i <= self.inner.len(),
                key@ == name@,
                position_of(self@, name@, i as nat) is None,
            decreases self.inner.len() - i,
        {
            if self.inner[i].ident == key {
                assert(position_of(self@, name@, (i + 1) as nat) == Some(i as int));
                proof {
                    lemma_position_stable(self@, name@, (i + 1) as nat, self@.len());
                }
                return Some(i);
            }
            i += 1;
        }
        None
    }

    /// The parameter of the entry at `index`.
    pub fn ident(&self, index: usize) -> (r: &str)
        requires
            index < self@.len(),
        ensures
            r@ == self@[index as int].ident,
    {
        self.inner[index].ident.as_str()
    }

    /// What the entry at `index` is bound to.
    pub fn binding(&self, index: usize) -> (r: &Option<TypeExpr>)
        requires
            index < self@.len(),
        ensures
            match r {
                Some(t) => self@[index as int].ty == Some(t@),
                None => self@[index as int].ty is None,
            },
    {
        &self.inner[index].ty
    }

    /// What `name` is bound to: `None` where the map has no such parameter,
    /// `Some(None)` where it has not resolved it yet.
    pub fn get(&self, name: &str) -> (r: Option<&Option<TypeExpr>>)
        ensures
            match r {
                Some(Some(t)) => bound_type(self@, name@) == Some(t@),
                Some(None) => entry_index(self@, name@) is Some && bound_type(self@, name@) is None,
                None => entry_index(self@, name@) is None,
            },
    {
        match self.position(name) {
            Some(i) => Some(self.binding(i)),
            None => None,
        }
    }

    /// Binds the entry at `index` to `ty`.
    pub fn bind(&mut self, index: usize, ty: TypeExpr)
        requires
            index < old(self)@.len(),
        ensures
            final(self)@ == bind_entry(old(self)@, index as int, ty@),
            old(self).wf() ==> final(self).wf(),
    {
        let ident = self.inner[index].ident.clone();
        self.inner.set(index, TyParamsSubstItem { ident, ty: Some(ty) });
        assert(self@ =~= bind_entry(old(self)@, index as int, ty@));
    }

    /// Declares the parameter `ident` with the binding `ty`. A parameter that
    /// the map already holds keeps its place and takes the new binding.
    pub fn insert(&mut self, ident: &str, ty: Option<TypeExpr>)
        ensures
            final(self)@ == insert_entry(old(self)@, ident@, option_model(ty)),
            old(self).wf() ==> final(self).wf(),
            final(self)@.len() == old(self)@.len() + if entry_index(old(self)@, ident@) is None {
                1int
            } else {
                0int
            },
    {
        let ghost entry = SubstEntry { ident: ident@, ty: option_model(ty) };
        match self.position(ident) {
            Some(i) => {
                proof {
                    lemma_position_of(self@, ident@, self@.len());
                }
                self.inner.set(i, TyParamsSubstItem { ident: String::from_str(ident), ty });
                assert(self@ =~= old(self)@.update(i as int, entry));
            },
            None => {
                proof {
                    lemma_position_of(self@, ident@, self@.len());
                }
                self.inner.push(TyParamsSubstItem { ident: String::from_str(ident), ty });
                assert(self@ =~= old(self)@.push(entry));
            },
        }
    }
}

/// The model of an optional type.
pub open spec fn option_model(ty: Option<TypeExpr>) -> Option<TypeModel> {
    match ty {
        Some(t) => Some(t@),
        None => None,
    }
}

/// The map after `insert`: the entry of `ident` replaced where there is one,
/// a new last entry otherwise.
pub open spec fn insert_entry(entries: Seq<SubstEntry>, ident: Seq<char>, ty: Option<TypeModel>) -> Seq<
    SubstEntry,
> {
    match entry_index(entries, ident) {
        Some(i) => entries.update(i, SubstEntry { ident, ty }),
        None => entries.push(SubstEntry { ident, ty }),
    }
}

/// Once `position_of` has found an entry, looking further finds the same one.
pub proof fn lemma_position_stable(entries: Seq<SubstEntry>, name: Seq<char>, n: nat, m: nat)
    requires
        n <= m <= entries.len(),
        position_of(entries, name, n) is Some,
    ensures
        position_of(entries, name, m) == position_of(entries, name, n),
    decreases m,
{
    if n < m {
        lemma_position_stable(entries, name, n, (m - 1) as nat);
    }
}

} // verus!
