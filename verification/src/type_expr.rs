//! Type expressions: the trees that conversion rules are matched against.
//!
//! Paths, references, slices and tuples are taken apart, and so is what
//! stands around one inner type: a raw pointer, an array, parentheses. Any
//! other type (a function type, a trait object, a qualified path) and any
//! generic argument that is neither a lifetime, a type nor a binding is kept
//! whole as the text of its tokens: nothing looks into it, and two of them
//! are the same exactly when their texts are.

use vstd::prelude::*;
use vstd::string::*;

verus! {

/// One generic argument of a path segment.
#[derive(Debug, PartialEq, Eq, Hash)]
pub enum GenericArgument {
    /// A lifetime, held without its apostrophe.
    Lifetime(String),
    /// A type.
    Type(TypeExpr),
    /// A binding of an associated type, `Name = Type`.
    Binding { ident: String, ty: TypeExpr },
    /// Anything else, held as its token text and compared as such.
    Other(String),
}

/// One segment of a nominal path: a name and, where written, its generic arguments.
#[derive(Debug, PartialEq, Eq, Hash)]
pub struct PathSegment {
    pub ident: String,
    pub arguments: Option<Vec<GenericArgument>>,
}

/// A type expression.
#[derive(Debug, PartialEq, Eq, Hash)]
pub enum TypeExpr {
    /// A nominal path such as `std::rc::Rc<T>`.
    Path { global: bool, segments: Vec<PathSegment> },
    /// A reference `&'a mut T`; the lifetime is held without its apostrophe.
    Reference { lifetime: Option<String>, mutable: bool, elem: Box<TypeExpr> },
    /// A slice `[T]`.
    Slice { elem: Box<TypeExpr> },
    /// A tuple `(A, B)`.
    Tuple { elems: Vec<TypeExpr> },
    /// A type with tokens around one inner type: a raw pointer `*const T`,
    /// an array `[T; N]`, a type in parentheses `(T)`. The tokens before and
    /// behind the inner type are held as token text.
    Around { prefix: String, elem: Box<TypeExpr>, suffix: String },
    /// Any other type, held as its token text and compared as such.
    Other { text: String },
}

/// Mathematical model of [`GenericArgument`].
pub enum ArgModel {
    Lifetime(Seq<char>),
    Type(TypeModel),
    Binding { ident: Seq<char>, ty: TypeModel },
    Other(Seq<char>),
}

/// Mathematical model of [`PathSegment`].
pub struct SegmentModel {
    pub ident: Seq<char>,
    pub arguments: Option<Seq<ArgModel>>,
}

/// Mathematical model of [`TypeExpr`].
pub enum TypeModel {
    Path { global: bool, segments: Seq<SegmentModel> },
    Reference { lifetime: Option<Seq<char>>, mutable: bool, elem: Box<TypeModel> },
    Slice { elem: Box<TypeModel> },
    Tuple { elems: Seq<TypeModel> },
    Around { prefix: Seq<char>, elem: Box<TypeModel>, suffix: Seq<char> },
    Other { text: Seq<char> },
}

/// The model of a generic argument.
pub open spec fn arg_model(a: GenericArgument) -> ArgModel
    decreases a,
{
    match a {
        GenericArgument::Lifetime(l) => ArgModel::Lifetime(l@),
        GenericArgument::Type(t) => ArgModel::Type(type_model(t)),
        GenericArgument::Binding { ident, ty } => ArgModel::Binding {
            ident: ident@,
            ty: type_model(ty),
        },
        GenericArgument::Other(s) => ArgModel::Other(s@),
    }
}

/// The models of a list of generic arguments.
pub open spec fn args_model(s: Seq<GenericArgument>) -> Seq<ArgModel>
    decreases s,
{
    Seq::new(s.len(), |i: int| if 0 <= i < s.len() { arg_model(s[i]) } else { arbitrary() })
}

/// The models of a list of path segments.
pub open spec fn segments_model(s: Seq<PathSegment>) -> Seq<SegmentModel>
    decreases s,
{
    Seq::new(s.len(), |i: int| if 0 <= i < s.len() { segment_model(s[i]) } else { arbitrary() })
}

/// The models of a list of type expressions.
pub open spec fn types_model(s: Seq<TypeExpr>) -> Seq<TypeModel>
    decreases s,
{
    Seq::new(s.len(), |i: int| if 0 <= i < s.len() { type_model(s[i]) } else { arbitrary() })
}

/// The model of a path segment.
pub open spec fn segment_model(s: PathSegment) -> SegmentModel
    decreases s,
{
    SegmentModel {
        ident: s.ident@,
        arguments: match s.arguments {
            Some(args) => Some(args_model(args@)),
            None => None,
        },
    }
}

/// The model of a type expression.
pub open spec fn type_model(t: TypeExpr) -> TypeModel
    decreases t,
{
    match t {
        TypeExpr::Path { global, segments } => TypeModel::Path {
            global,
            segments: segments_model(segments@),
        },
        TypeExpr::Reference { lifetime, mutable, elem } => TypeModel::Reference {
            lifetime: match lifetime {
                Some(l) => Some(l@),
                None => None,
            },
            mutable,
            elem: Box::new(type_model(*elem)),
        },
        TypeExpr::Slice { elem } => TypeModel::Slice { elem: Box::new(type_model(*elem)) },
        TypeExpr::Tuple { elems } => TypeModel::Tuple {
            elems: types_model(elems@),
        },
        TypeExpr::Around { prefix, elem, suffix } => TypeModel::Around {
            prefix: prefix@,
            elem: Box::new(type_model(*elem)),
            suffix: suffix@,
        },
        TypeExpr::Other { text } => TypeModel::Other { text: text@ },
    }
}

impl View for GenericArgument {
    type V = ArgModel;

    open spec fn view(&self) -> ArgModel {
        arg_model(*self)
    }
}

impl View for PathSegment {
    type V = SegmentModel;

    open spec fn view(&self) -> SegmentModel {
        segment_model(*self)
    }
}

impl View for TypeExpr {
    type V = TypeModel;

    open spec fn view(&self) -> TypeModel {
        type_model(*self)
    }
}

impl GenericArgument {
    /// A deep copy.
    pub fn clone_arg(&self) -> (r: GenericArgument)
        ensures
            r@ == self@,
        decreases self,
    {
        match self {
            GenericArgument::Lifetime(l) => GenericArgument::Lifetime(l.clone()),
            GenericArgument::Type(t) => GenericArgument::Type(t.clone_type()),
            GenericArgument::Binding { ident, ty } => GenericArgument::Binding {
                ident: ident.clone(),
                ty: ty.clone_type(),
            },
            GenericArgument::Other(s) => GenericArgument::Other(s.clone()),
        }
    }

    /// Structural equality.
    pub fn same_arg(&self, other: &GenericArgument) -> (r: bool)
        ensures
            r == (self@ == other@),
        decreases self,
    {
        match self {
            GenericArgument::Lifetime(a) => match other {
                GenericArgument::Lifetime(b) => *a == *b,
                _ => false,
            },
            GenericArgument::Type(a) => match other {
                GenericArgument::Type(b) => a.same_type(b),
                _ => false,
            },
            GenericArgument::Binding { ident: i1, ty: t1 } => match other {
                GenericArgument::Binding { ident: i2, ty: t2 } => *i1 == *i2 && t1.same_type(t2),
                _ => false,
            },
            GenericArgument::Other(a) => match other {
                GenericArgument::Other(b) => *a == *b,
                _ => false,
            },
        }
    }
}

/// A deep copy of a list of generic arguments.
#[verifier::loop_isolation(false)]
pub fn clone_args(args: &Vec<GenericArgument>) -> (r: Vec<GenericArgument>)
    ensures
        args_model(r@) == args_model(args@),
    decreases args,
{
    let mut out: Vec<GenericArgument> = Vec::new();
    let mut i: usize = 0;
    while i < args.len()
        invariant
            i <= args.len(),
            out@.len() == i,
            forall|j: int| 0 <= j < i ==> out@[j]@ == args@[j]@,
        decreases args.len() - i,
    {
        out.push(args[i].clone_arg());
        i += 1;
    }
    assert(args_model(out@) =~= args_model(args@));
    out
}

/// Structural equality of two lists of generic arguments.
#[verifier::loop_isolation(false)]
pub fn same_args(a: &Vec<GenericArgument>, b: &Vec<GenericArgument>) -> (r: bool)
    ensures
        r == (args_model(a@) == args_model(b@)),
    decreases a,
{
    if a.len() != b.len() {
        assert(args_model(a@).len() != args_model(b@).len());
        return false;
    }
    let mut i: usize = 0;
    while i < a.len()
        invariant
            i <= a.len(),
            a.len() == b.len(),
            forall|j: int| 0 <= j < i ==> a@[j]@ == b@[j]@,
        decreases a.len() - i,
    {
        if !a[i].same_arg(&b[i]) {
            assert(args_model(a@)[i as int] != args_model(b@)[i as int]);
            return false;
        }
        i += 1;
    }
    assert(args_model(a@) =~= args_model(b@));
    true
}

impl PathSegment {
    /// A deep copy.
    pub fn clone_segment(&self) -> (r: PathSegment)
        ensures
            r@ == self@,
        decreases self,
    {
        let arguments = match &self.arguments {
            Some(args) => Some(clone_args(args)),
            None => None,
        };
        PathSegment { ident: self.ident.clone(), arguments }
    }

    /// Structural equality.
    pub fn same_segment(&self, other: &PathSegment) -> (r: bool)
        ensures
            r == (self@ == other@),
        decreases self,
    {
        if self.ident != other.ident {
            return false;
        }
        match &self.arguments {
            Some(a) => match &other.arguments {
                Some(b) => same_args(a, b),
                None => false,
            },
            None => other.arguments.is_none(),
        }
    }
}

impl TypeExpr {
    /// A deep copy.
    #[verifier::loop_isolation(false)]
    pub fn clone_type(&self) -> (r: TypeExpr)
        ensures
            r@ == self@,
        decreases self,
    {
        match self {
            TypeExpr::Path { global, segments } => {
                let mut out: Vec<PathSegment> = Vec::new();
                let mut i: usize = 0;
                while i < segments.len()
                    invariant
                        i <= segments.len(),
                        out@.len() == i,
                        forall|j: int| 0 <= j < i ==> out@[j]@ == segments@[j]@,
                    decreases segments.len() - i,
                {
                    out.push(segments[i].clone_segment());
                    i += 1;
                }
                assert(segments_model(out@) =~= segments_model(segments@));
                TypeExpr::Path { global: *global, segments: out }
            },
            TypeExpr::Reference { lifetime, mutable, elem } => TypeExpr::Reference {
                lifetime: match lifetime {
                    Some(l) => Some(l.clone()),
                    None => None,
                },
                mutable: *mutable,
                elem: Box::new(elem.clone_type()),
            },
            TypeExpr::Slice { elem } => TypeExpr::Slice { elem: Box::new(elem.clone_type()) },
            TypeExpr::Tuple { elems } => {
                let mut out: Vec<TypeExpr> = Vec::new();
                let mut i: usize = 0;
                while i < elems.len()
                    invariant
                        i <= elems.len(),
                        out@.len() == i,
                        forall|j: int| 0 <= j < i ==> out@[j]@ == elems@[j]@,
                    decreases elems.len() - i,
                {
                    out.push(elems[i].clone_type());
                    i += 1;
                }
                assert(types_model(out@) =~= types_model(elems@));
                TypeExpr::Tuple { elems: out }
            },
            TypeExpr::Around { prefix, elem, suffix } => TypeExpr::Around {
                prefix: prefix.clone(),
                elem: Box::new(elem.clone_type()),
                suffix: suffix.clone(),
            },
            TypeExpr::Other { text } => TypeExpr::Other { text: text.clone() },
        }
    }

    /// Structural equality.
    #[verifier::loop_isolation(false)]
    pub fn same_type(&self, other: &TypeExpr) -> (r: bool)
        ensures
            r == (self@ == other@),
        decreases self,
    {
        match (self, other) {
            (
                TypeExpr::Reference { lifetime: l1, mutable: m1, elem: e1 },
                TypeExpr::Reference { lifetime: l2, mutable: m2, elem: e2 },
            ) => {
                let same_lifetime = match (l1, l2) {
                    (Some(a), Some(b)) => *a == *b,
                    (None, None) => true,
                    _ => false,
                };
                same_lifetime && *m1 == *m2 && e1.same_type(e2)
            },
            (TypeExpr::Slice { elem: e1 }, TypeExpr::Slice { elem: e2 }) => e1.same_type(e2),
            (
                TypeExpr::Around { prefix: p1, elem: e1, suffix: s1 },
                TypeExpr::Around { prefix: p2, elem: e2, suffix: s2 },
            ) => *p1 == *p2 && *s1 == *s2 && e1.same_type(e2),
            (TypeExpr::Other { text: a }, TypeExpr::Other { text: b }) => *a == *b,
            (
                TypeExpr::Path { global: g1, segments: v1 },
                TypeExpr::Path { global: g2, segments: v2 },
            ) => {
                if *g1 != *g2 {
                    return false;
                }
                if v1.len() != v2.len() {
                    assert(segments_model(v1@).len() != segments_model(v2@).len());
                    return false;
                }
                let mut i: usize = 0;
                while i < v1.len()
                    invariant
                        i <= v1.len(),
                        v1.len() == v2.len(),
                        forall|j: int| 0 <= j < i ==> v1@[j]@ == v2@[j]@,
                    decreases v1.len() - i,
                {
                    if !v1[i].same_segment(&v2[i]) {
                        assert(segments_model(v1@)[i as int] != segments_model(v2@)[i as int]);
                        return false;
                    }
                    i += 1;
                }
                assert(segments_model(v1@) =~= segments_model(v2@));
                true
            },
            (TypeExpr::Tuple { elems: v1 }, TypeExpr::Tuple { elems: v2 }) => {
                if v1.len() != v2.len() {
                    assert(types_model(v1@).len() != types_model(v2@).len());
                    return false;
                }
                let mut i: usize = 0;
                while i < v1.len()
                    invariant
                        i <= v1.len(),
                        v1.len() == v2.len(),
                        forall|j: int| 0 <= j < i ==> v1@[j]@ == v2@[j]@,
                    decreases v1.len() - i,
                {
                    if !v1[i].same_type(&v2[i]) {
                        assert(types_model(v1@)[i as int] != types_model(v2@)[i as int]);
                        return false;
                    }
                    i += 1;
                }
                assert(types_model(v1@) =~= types_model(v2@));
                true
            },
            _ => false,
        }
    }
}

/// The path of one segment without generic arguments: a plain name.
pub open spec fn ident_type(name: Seq<char>) -> TypeModel {
    TypeModel::Path {
        global: false,
        segments: seq![SegmentModel { ident: name, arguments: None }],
    }
}

/// The path of one segment whose generic arguments are the given types.
pub open spec fn generic_type(name: Seq<char>, args: Seq<TypeModel>) -> TypeModel {
    TypeModel::Path {
        global: false,
        segments: seq![
            SegmentModel {
                ident: name,
                arguments: Some(Seq::new(args.len(), |i: int| ArgModel::Type(args[i]))),
            },
        ],
    }
}

/// The reference to a type, without a lifetime.
pub open spec fn reference_type(mutable: bool, elem: TypeModel) -> TypeModel {
    TypeModel::Reference { lifetime: None, mutable, elem: Box::new(elem) }
}

impl TypeExpr {
    /// The type named `name`.
    pub fn ident(name: &str) -> (r: TypeExpr)
        ensures
            r@ == ident_type(name@),
    {
        let mut segments: Vec<PathSegment> = Vec::new();
        segments.push(PathSegment { ident: String::from_str(name), arguments: None });
        let r = TypeExpr::Path { global: false, segments };
        assert(segments_model(segments@) =~= seq![
            SegmentModel { ident: name@, arguments: None },
        ]);
        r
    }

    /// The type named `name` with the generic arguments `args`.
    pub fn generic(name: &str, args: Vec<TypeExpr>) -> (r: TypeExpr)
        ensures
            r@ == generic_type(name@, types_model(args@)),
    {
        let ghost models = types_model(args@);
        let mut list: Vec<GenericArgument> = Vec::new();
        let mut i: usize = 0;
        while i < args.len()
            invariant
                i <= args.len(),
                list@.len() == i,
                models == types_model(args@),
                forall|j: int| 0 <= j < i ==> list@[j]@ == ArgModel::Type(models[j]),
            decreases args.len() - i,
        {
            list.push(GenericArgument::Type(args[i].clone_type()));
            i += 1;
        }
        let mut segments: Vec<PathSegment> = Vec::new();
        segments.push(PathSegment { ident: String::from_str(name), arguments: Some(list) });
        assert(args_model(list@) =~= Seq::new(models.len(), |i: int| ArgModel::Type(models[i])));
        assert(segments_model(segments@) =~= seq![segments@[0]@]);
        TypeExpr::Path { global: false, segments }
    }

    /// The reference, without a lifetime, to `elem`.
    pub fn reference(mutable: bool, elem: TypeExpr) -> (r: TypeExpr)
        ensures
            r@ == reference_type(mutable, elem@),
    {
        TypeExpr::Reference { lifetime: None, mutable, elem: Box::new(elem) }
    }
}

impl Clone for GenericArgument {
    fn clone(&self) -> (r: GenericArgument)
        ensures
            r@ == self@,
    {
        self.clone_arg()
    }
}

impl Clone for PathSegment {
    fn clone(&self) -> (r: PathSegment)
        ensures
            r@ == self@,
    {
        self.clone_segment()
    }
}

impl Clone for TypeExpr {
    fn clone(&self) -> (r: TypeExpr)
        ensures
            r@ == self@,
    {
        self.clone_type()
    }
}

} // verus!
