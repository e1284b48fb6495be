//! Canonical names of type expressions: lifetimes erased, tokens joined by single spaces.

use crate::type_expr::{
    args_model, segments_model, types_model, ArgModel, GenericArgument, PathSegment, SegmentModel,
    TypeExpr, TypeModel,
};
use vstd::prelude::*;
use vstd::string::*;

verus! {

/// The first `n` generic arguments with every lifetime argument dropped and
/// every type argument erased.
pub open spec fn erase_args(args: Seq<ArgModel>, n: nat) -> Seq<ArgModel>
    decreases args, n,
{
    if n == 0 || n > args.len() {
        Seq::empty()
    } else {
        let before = erase_args(args, (n - 1) as nat);
        match args[n - 1] {
            ArgModel::Lifetime(_) => before,
            ArgModel::Type(t) => before.push(ArgModel::Type(erase_type(t))),
            ArgModel::Binding { ident, ty } => before.push(
                ArgModel::Binding { ident, ty: erase_type(ty) },
            ),
            ArgModel::Other(text) => before.push(ArgModel::Other(text)),
        }
    }
}

/// A path segment with the lifetimes of its generic arguments erased.
pub open spec fn erase_segment(s: SegmentModel) -> SegmentModel
    decreases s, 0nat,
{
    SegmentModel {
        ident: s.ident,
        arguments: match s.arguments {
            Some(args) => Some(erase_args(args, args.len())),
            None => None,
        },
    }
}

/// The first `n` path segments, each erased.
pub open spec fn erase_segments(segments: Seq<SegmentModel>, n: nat) -> Seq<SegmentModel>
    decreases segments, n,
{
    if n == 0 || n > segments.len() {
        Seq::empty()
    } else {
        erase_segments(segments, (n - 1) as nat).push(erase_segment(segments[n - 1]))
    }
}

/// The first `n` types, each erased.
pub open spec fn erase_types(types: Seq<TypeModel>, n: nat) -> Seq<TypeModel>
    decreases types, n,
{
    if n == 0 || n > types.len() {
        Seq::empty()
    } else {
        erase_types(types, (n - 1) as nat).push(erase_type(types[n - 1]))
    }
}

/// The type with every lifetime removed: references lose their lifetime and
/// lifetime arguments leave the generic argument lists.
pub open spec fn erase_type(t: TypeModel) -> TypeModel
    decreases t, 0nat,
{
    match t {
        TypeModel::Path { global, segments } => TypeModel::Path {
            global,
            segments: erase_segments(segments, segments.len()),
        },
        TypeModel::Reference { lifetime, mutable, elem } => TypeModel::Reference {
            lifetime: None,
            mutable,
            elem: Box::new(erase_type(*elem)),
        },
        TypeModel::Slice { elem } => TypeModel::Slice { elem: Box::new(erase_type(*elem)) },
        TypeModel::Tuple { elems } => TypeModel::Tuple { elems: erase_types(elems, elems.len()) },
        TypeModel::Around { prefix, elem, suffix } => TypeModel::Around {
            prefix,
            elem: Box::new(erase_type(*elem)),
            suffix,
        },
        TypeModel::Other { text } => TypeModel::Other { text },
    }
}

/// The token text of one generic argument.
pub open spec fn render_arg(a: ArgModel) -> Seq<char>
    decreases a, 0nat,
{
    match a {
        ArgModel::Lifetime(l) => "'"@ + l,
        ArgModel::Type(t) => render_type(t),
        ArgModel::Binding { ident, ty } => ident + " = "@ + render_type(ty),
        ArgModel::Other(text) => text,
    }
}

/// The token text of the first `n` generic arguments, separated by commas.
pub open spec fn render_args(args: Seq<ArgModel>, n: nat) -> Seq<char>
    decreases args, n,
{
    if n == 0 || n > args.len() {
        Seq::empty()
    } else if n == 1 {
        render_arg(args[0])
    } else {
        render_args(args, (n - 1) as nat) + " , "@ + render_arg(args[n - 1])
    }
}

/// The token text of one path segment.
pub open spec fn render_segment(s: SegmentModel) -> Seq<char>
    decreases s, 0nat,
{
    match s.arguments {
        None => s.ident,
        Some(args) => if args.len() == 0 {
            s.ident + " < >"@
        } else {
            s.ident + " < "@ + render_args(args, args.len()) + " >"@
        },
    }
}

/// The token text of the first `n` path segments, separated by `::`.
pub open spec fn render_segments(segments: Seq<SegmentModel>, n: nat) -> Seq<char>
    decreases segments, n,
{
    if n == 0 || n > segments.len() {
        Seq::empty()
    } else if n == 1 {
        render_segment(segments[0])
    } else {
        render_segments(segments, (n - 1) as nat) + " :: "@ + render_segment(segments[n - 1])
    }
}

/// The token text of the first `n` types, separated by commas.
pub open spec fn render_types(types: Seq<TypeModel>, n: nat) -> Seq<char>
    decreases types, n,
{
    if n == 0 || n > types.len() {
        Seq::empty()
    } else if n == 1 {
        render_type(types[0])
    } else {
        render_types(types, (n - 1) as nat) + " , "@ + render_type(types[n - 1])
    }
}

/// The token text of an inner type with the tokens around it.
pub open spec fn around(prefix: Seq<char>, inner: Seq<char>, suffix: Seq<char>) -> Seq<char> {
    let before = if prefix.len() > 0 {
        prefix + " "@
    } else {
        Seq::empty()
    };
    let behind = if suffix.len() > 0 {
        " "@ + suffix
    } else {
        Seq::empty()
    };
    before + inner + behind
}

/// The token text of a type: its tokens in order, separated by single
/// spaces. A tuple of one element keeps the comma that tells it from a type
/// in parentheses. No other list ends with a comma: the type parser of `syn`
/// keeps none for a tuple, and erasing lifetimes writes the generic arguments
/// anew.
pub open spec fn render_type(t: TypeModel) -> Seq<char>
    decreases t, 0nat,
{
    match t {
        TypeModel::Path { global, segments } => if global {
            ":: "@ + render_segments(segments, segments.len())
        } else {
            render_segments(segments, segments.len())
        },
        TypeModel::Reference { lifetime, mutable, elem } => {
            let region = match lifetime {
                Some(l) => "'"@ + l + " "@,
                None => Seq::empty(),
            };
            let access = if mutable {
                "mut "@
            } else {
                Seq::empty()
            };
            "& "@ + region + access + render_type(*elem)
        },
        TypeModel::Slice { elem } => "[ "@ + render_type(*elem) + " ]"@,
        TypeModel::Tuple { elems } => if elems.len() == 0 {
            "( )"@
        } else if elems.len() == 1 {
            "( "@ + render_type(elems[0]) + " , )"@
        } else {
            "( "@ + render_types(elems, elems.len()) + " )"@
        },
        TypeModel::Around { prefix, elem, suffix } => around(prefix, render_type(*elem), suffix),
        TypeModel::Other { text } => text,
    }
}

/// The canonical name of a type: the token text of the type without its lifetimes.
pub open spec fn normalized(t: TypeModel) -> Seq<char> {
    render_type(erase_type(t))
}

/// Copies a list of generic arguments without its lifetimes.
#[verifier::loop_isolation(false)]
pub fn strip_args(args: &Vec<GenericArgument>) -> (r: Vec<GenericArgument>)
    ensures
        args_model(r@) == erase_args(args_model(args@), args@.len()),
    decreases args,
{
    let ghost model = args_model(args@);
    let mut out: Vec<GenericArgument> = Vec::new();
    let mut i: usize = 0;
    assert(args_model(out@) =~= erase_args(model, 0));
    while i < args.len()
        invariant
            i <= args.len(),
            args_model(out@) == erase_args(model, i as nat),
        decreases args.len() - i,
    {
        let ghost before = out@;
        match &args[i] {
            GenericArgument::Lifetime(_) => {},
            GenericArgument::Type(t) => {
                out.push(GenericArgument::Type(strip_lifetimes(t)));
                assert(args_model(out@) =~= args_model(before).push(out@[out@.len() - 1]@));
            },
            GenericArgument::Binding { ident, ty } => {
                out.push(
                    GenericArgument::Binding { ident: ident.clone(), ty: strip_lifetimes(ty) },
                );
                assert(args_model(out@) =~= args_model(before).push(out@[out@.len() - 1]@));
            },
            GenericArgument::Other(text) => {
                out.push(GenericArgument::Other(text.clone()));
                assert(args_model(out@) =~= args_model(before).push(out@[out@.len() - 1]@));
            },
        }
        i += 1;
    }
    out
}

/// Copies a type without its lifetimes.
#[verifier::loop_isolation(false)]
pub fn strip_lifetimes(ty: &TypeExpr) -> (r: TypeExpr)
    ensures
        r@ == erase_type(ty@),
    decreases ty,
{
    match ty {
        TypeExpr::Path { global, segments } => {
            let ghost model = segments_model(segments@);
            let mut out: Vec<PathSegment> = Vec::new();
            let mut i: usize = 0;
            assert(segments_model(out@) =~= erase_segments(model, 0));
            while i < segments.len()
                invariant
                    i <= segments.len(),
                    segments_model(out@) == erase_segments(model, i as nat),
                decreases segments.len() - i,
            {
                let ghost before = out@;
                let seg = &segments[i];
                let arguments = match &seg.arguments {
                    Some(args) => {
                        assert(args_model(args@).len() == args@.len());
                        Some(strip_args(args))
                    },
                    None => None,
                };
                out.push(PathSegment { ident: seg.ident.clone(), arguments });
                assert(out@[out@.len() - 1]@ == erase_segment(model[i as int]));
                assert(segments_model(out@) =~= segments_model(before).push(
                    out@[out@.len() - 1]@,
                ));
                i += 1;
            }
            TypeExpr::Path { global: *global, segments: out }
        },
        TypeExpr::Reference { lifetime: _, mutable, elem } => TypeExpr::Reference {
            lifetime: None,
            mutable: *mutable,
            elem: Box::new(strip_lifetimes(elem)),
        },
        TypeExpr::Slice { elem } => TypeExpr::Slice { elem: Box::new(strip_lifetimes(elem)) },
        TypeExpr::Tuple { elems } => {
            let ghost model = types_model(elems@);
            let mut out: Vec<TypeExpr> = Vec::new();
            let mut i: usize = 0;
            assert(types_model(out@) =~= erase_types(model, 0));
            while i < elems.len()
                invariant
                    i <= elems.len(),
                    types_model(out@) == erase_types(model, i as nat),
                decreases elems.len() - i,
            {
                let ghost before = out@;
                out.push(strip_lifetimes(&elems[i]));
                assert(types_model(out@) =~= types_model(before).push(out@[out@.len() - 1]@));
                i += 1;
            }
            TypeExpr::Tuple { elems: out }
        },
        TypeExpr::Around { prefix, elem, suffix } => TypeExpr::Around {
            prefix: prefix.clone(),
            elem: Box::new(strip_lifetimes(elem)),
            suffix: suffix.clone(),
        },
        TypeExpr::Other { text } => TypeExpr::Other { text: text.clone() },
    }
}

/// Writes the token text of one generic argument.
pub fn arg_token_text(arg: &GenericArgument) -> (r: String)
    ensures
        r@ == render_arg(arg@),
    decreases arg,
{
    match arg {
        GenericArgument::Lifetime(l) => {
            let mut out = String::from_str("'");
            out.append(l.as_str());
            out
        },
        GenericArgument::Type(t) => token_text(t),
        GenericArgument::Binding { ident, ty } => {
            let inner = token_text(ty);
            let mut out = ident.clone();
            out.append(" = ");
            out.append(inner.as_str());
            out
        },
        GenericArgument::Other(text) => text.clone(),
    }
}

/// Writes the token text of a list of generic arguments, separated by commas.
#[verifier::loop_isolation(false)]
pub fn args_token_text(args: &Vec<GenericArgument>) -> (r: String)
    ensures
        r@ == render_args(args_model(args@), args@.len()),
    decreases args,
{
    let ghost model = args_model(args@);
    let mut out = String::new();
    let mut i: usize = 0;
    while i < args.len()
        invariant
            i <= args.len(),
            out@ == render_args(model, i as nat),
        decreases args.len() - i,
    {
        let piece = arg_token_text(&args[i]);
        assert(piece@ == render_arg(model[i as int]));
        if i > 0 {
            out.append(" , ");
        }
        out.append(piece.as_str());
        assert(out@ =~= render_args(model, (i + 1) as nat));
        i += 1;
    }
    out
}

/// Writes the token text of one path segment.
pub fn segment_token_text(segment: &PathSegment) -> (r: String)
    ensures
        r@ == render_segment(segment@),
    decreases segment,
{
    let mut out = segment.ident.clone();
    match &segment.arguments {
        None => {},
        Some(args) => {
            if args.len() == 0 {
                out.append(" < >");
            } else {
                let inner = args_token_text(args);
                out.append(" < ");
                out.append(inner.as_str());
                out.append(" >");
            }
        },
    }
    out
}

/// Writes the token text of a type: its tokens in order, separated by single spaces.
#[verifier::loop_isolation(false)]
pub fn token_text(ty: &TypeExpr) -> (r: String)
    ensures
        r@ == render_type(ty@),
    decreases ty,
{
    match ty {
        TypeExpr::Path { global, segments } => {
            let ghost model = segments_model(segments@);
            let mut body = String::new();
            let mut i: usize = 0;
            while i < segments.len()
                invariant
                    i <= segments.len(),
                    body@ == render_segments(model, i as nat),
                decreases segments.len() - i,
            {
                let piece = segment_token_text(&segments[i]);
                assert(piece@ == render_segment(model[i as int]));
                if i > 0 {
                    body.append(" :: ");
                }
                body.append(piece.as_str());
                assert(body@ =~= render_segments(model, (i + 1) as nat));
                i += 1;
            }
            assert(model.len() == segments@.len());
            if *global {
                let mut out = String::from_str(":: ");
                out.append(body.as_str());
                out
            } else {
                body
            }
        },
        TypeExpr::Reference { lifetime, mutable, elem } => {
            let mut region = String::new();
            match lifetime {
                Some(l) => {
                    region.append("'");
                    region.append(l.as_str());
                    region.append(" ");
                    assert(region@ =~= "'"@ + l@ + " "@);
                },
                None => {},
            }
            let inner = token_text(elem);
            let mut out = String::from_str("& ");
            out.append(region.as_str());
            if *mutable {
                out.append("mut ");
            }
            out.append(inner.as_str());
            assert(out@ =~= render_type(ty@));
            out
        },
        TypeExpr::Slice { elem } => {
            let inner = token_text(elem);
            let mut out = String::from_str("[ ");
            out.append(inner.as_str());
            out.append(" ]");
            out
        },
        TypeExpr::Tuple { elems } => {
            assert(types_model(elems@).len() == elems@.len());
            if elems.len() == 0 {
                String::from_str("( )")
            } else if elems.len() == 1 {
                let inner = token_text(&elems[0]);
                assert(types_model(elems@)[0] == elems@[0]@);
                let mut out = String::from_str("( ");
                out.append(inner.as_str());
                out.append(" , )");
                out
            } else {
                let ghost model = types_model(elems@);
                let mut body = String::new();
                let mut i: usize = 0;
                while i < elems.len()
                    invariant
                        i <= elems.len(),
                        body@ == render_types(model, i as nat),
                    decreases elems.len() - i,
                {
                    let piece = token_text(&elems[i]);
                    assert(piece@ == render_type(model[i as int]));
                    if i > 0 {
                        body.append(" , ");
                    }
                    body.append(piece.as_str());
                    assert(body@ =~= render_types(model, (i + 1) as nat));
                    i += 1;
                }
                let mut out = String::from_str("( ");
                out.append(body.as_str());
                out.append(" )");
                out
            }
        },
        TypeExpr::Around { prefix, elem, suffix } => {
            let inner = token_text(elem);
            let mut out = String::new();
            if prefix.as_str().unicode_len() > 0 {
                out.append(prefix.as_str());
                out.append(" ");
            }
            out.append(inner.as_str());
            if suffix.as_str().unicode_len() > 0 {
                out.append(" ");
                out.append(suffix.as_str());
            }
            assert(out@ =~= around(prefix@, inner@, suffix@));
            out
        },
        TypeExpr::Other { text } => text.clone(),
    }
}

/// The canonical name of a type: its token text with every lifetime erased.
pub fn normalize_ty_lifetimes(ty: &TypeExpr) -> (r: String)
    ensures
        r@ == normalized(ty@),
{
    let stripped = strip_lifetimes(ty);
    token_text(&stripped)
}

/// The lifetimes among the first `n` generic arguments, in the order in which they are written.
pub open spec fn lifetimes_of_args(args: Seq<ArgModel>, n: nat) -> Seq<Seq<char>>
    decreases args, n,
{
    if n == 0 || n > args.len() {
        Seq::empty()
    } else {
        let before = lifetimes_of_args(args, (n - 1) as nat);
        match args[n - 1] {
            ArgModel::Lifetime(l) => before.push("'"@ + l),
            ArgModel::Type(t) => before + lifetimes_of(t),
            ArgModel::Binding { ident: _, ty } => before + lifetimes_of(ty),
            ArgModel::Other(_) => before,
        }
    }
}

/// The lifetimes in the first `n` path segments.
pub open spec fn lifetimes_of_segments(segments: Seq<SegmentModel>, n: nat) -> Seq<Seq<char>>
    decreases segments, n,
{
    if n == 0 || n > segments.len() {
        Seq::empty()
    } else {
        lifetimes_of_segments(segments, (n - 1) as nat) + match segments[n - 1].arguments {
            Some(args) => lifetimes_of_args(args, args.len()),
            None => Seq::empty(),
        }
    }
}

/// The lifetimes in the first `n` types.
pub open spec fn lifetimes_of_types(types: Seq<TypeModel>, n: nat) -> Seq<Seq<char>>
    decreases types, n,
{
    if n == 0 || n > types.len() {
        Seq::empty()
    } else {
        lifetimes_of_types(types, (n - 1) as nat) + lifetimes_of(types[n - 1])
    }
}

/// The lifetimes that a type names, each with its apostrophe, in the order in
/// which they are written. What is kept as token text is not looked into.
pub open spec fn lifetimes_of(t: TypeModel) -> Seq<Seq<char>>
    decreases t, 0nat,
{
    match t {
        TypeModel::Path { global: _, segments } => lifetimes_of_segments(segments, segments.len()),
        TypeModel::Reference { lifetime, mutable: _, elem } => match lifetime {
            Some(l) => seq!["'"@ + l] + lifetimes_of(*elem),
            None => lifetimes_of(*elem),
        },
        TypeModel::Slice { elem } => lifetimes_of(*elem),
        TypeModel::Tuple { elems } => lifetimes_of_types(elems, elems.len()),
        TypeModel::Around { prefix: _, elem, suffix: _ } => lifetimes_of(*elem),
        TypeModel::Other { text: _ } => Seq::empty(),
    }
}

/// The models of a list of texts.
pub open spec fn names_model(names: Seq<String>) -> Seq<Seq<char>> {
    Seq::new(names.len(), |i: int| names[i]@)
}

/// Adds the lifetimes of a list of generic arguments to `out`.
#[verifier::loop_isolation(false)]
fn collect_args_lifetimes(args: &Vec<GenericArgument>, out: &mut Vec<String>)
    ensures
        names_model(final(out)@) == names_model(old(out)@) + lifetimes_of_args(
            args_model(args@),
            args@.len(),
        ),
    decreases args,
{
    let ghost model = args_model(args@);
    let ghost start = names_model(out@);
    let mut i: usize = 0;
    assert(names_model(out@) =~= start + lifetimes_of_args(model, 0));
    while i < args.len()
        invariant
            i <= args.len(),
            names_model(out@) == start + lifetimes_of_args(model, i as nat),
        decreases args.len() - i,
    {
        let ghost before = out@;
        assert(model[i as int] == args@[i as int]@);
        match &args[i] {
            GenericArgument::Lifetime(l) => {
                let mut name = String::from_str("'");
                name.append(l.as_str());
                out.push(name);
                assert(names_model(out@) =~= names_model(before).push("'"@ + l@));
            },
            GenericArgument::Type(t) => {
                collect_lifetimes(t, out);
            },
            GenericArgument::Binding { ident: _, ty } => {
                collect_lifetimes(ty, out);
            },
            GenericArgument::Other(_) => {},
        }
        assert(names_model(out@) =~= start + lifetimes_of_args(model, (i + 1) as nat));
        i += 1;
    }
}

/// Adds the lifetimes of a type to `out`.
#[verifier::loop_isolation(false)]
fn collect_lifetimes(ty: &TypeExpr, out: &mut Vec<String>)
    ensures
        names_model(final(out)@) == names_model(old(out)@) + lifetimes_of(ty@),
    decreases ty,
{
    let ghost start = names_model(out@);
    match ty {
        TypeExpr::Path { global: _, segments } => {
            let ghost model = segments_model(segments@);
            let mut i: usize = 0;
            assert(names_model(out@) =~= start + lifetimes_of_segments(model, 0));
            while i < segments.len()
                invariant
                    i <= segments.len(),
                    names_model(out@) == start + lifetimes_of_segments(model, i as nat),
                decreases segments.len() - i,
            {
                assert(model[i as int] == segments@[i as int]@);
                match &segments[i].arguments {
                    Some(args) => {
                        assert(args_model(args@).len() == args@.len());
                        collect_args_lifetimes(args, out);
                    },
                    None => {},
                }
                assert(names_model(out@) =~= start + lifetimes_of_segments(model, (i + 1) as nat));
                i += 1;
            }
            assert(model.len() == segments@.len());
        },
        TypeExpr::Reference { lifetime, mutable: _, elem } => {
            match lifetime {
                Some(l) => {
                    let ghost before = out@;
                    let mut name = String::from_str("'");
                    name.append(l.as_str());
                    out.push(name);
                    assert(names_model(out@) =~= names_model(before).push("'"@ + l@));
                },
                None => {},
            }
            collect_lifetimes(elem, out);
            assert(names_model(out@) =~= start + lifetimes_of(ty@));
        },
        TypeExpr::Slice { elem } => {
            collect_lifetimes(elem, out);
        },
        TypeExpr::Tuple { elems } => {
            let ghost model = types_model(elems@);
            let mut i: usize = 0;
            assert(names_model(out@) =~= start + lifetimes_of_types(model, 0));
            while i < elems.len()
                invariant
                    i <= elems.len(),
                    names_model(out@) == start + lifetimes_of_types(model, i as nat),
                decreases elems.len() - i,
            {
                assert(model[i as int] == elems@[i as int]@);
                collect_lifetimes(&elems[i], out);
                assert(names_model(out@) =~= start + lifetimes_of_types(model, (i + 1) as nat));
                i += 1;
            }
            assert(model.len() == elems@.len());
        },
        TypeExpr::Around { prefix: _, elem, suffix: _ } => {
            collect_lifetimes(elem, out);
        },
        TypeExpr::Other { text: _ } => {
            assert(names_model(out@) =~= start + lifetimes_of(ty@));
        },
    }
}

/// The lifetimes that a type names, each with its apostrophe, in the order in
/// which they are written.
pub fn list_lifetimes(ty: &TypeExpr) -> (r: Vec<String>)
    ensures
        names_model(r@) == lifetimes_of(ty@),
{
    let mut out: Vec<String> = Vec::new();
    assert(names_model(out@) =~= Seq::<Seq<char>>::empty());
    collect_lifetimes(ty, &mut out);
    assert(names_model(out@) =~= lifetimes_of(ty@));
    out
}

} // verus!
