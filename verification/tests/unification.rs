use swig_typemap::normalize::{normalize_ty_lifetimes, strip_lifetimes, token_text};
use swig_typemap::queries::{
    check_if_smart_pointer_return_inner_type, if_option_return_some_type,
    if_type_slice_return_elem_type, smart_pointer_inner_type,
};
use swig_typemap::rule::{GenericTypeConv, RegisteredTypes, TypeLookup};
use swig_typemap::rust_type::{RustType, TraitNamesSet};
use swig_typemap::source::Span;
use swig_typemap::subst_map::TyParamsSubstMap;
use swig_typemap::substitute::replace_all_types_with;
use swig_typemap::syntax::{
    is_readable, lower_type, parse_type, MAX_TYPE_DEPTH, MAX_TYPE_OPENERS, TYPE_TOO_DEEP,
    UNREADABLE_TYPE,
};
use swig_typemap::trait_bounds::{Generics, TypeParam, TypeParamBound};
use swig_typemap::type_expr::{GenericArgument, PathSegment, TypeExpr};
use swig_typemap::unify::is_second_subst_of_first;

fn ty(code: &str) -> TypeExpr {
    parse_type(code).unwrap()
}

fn rust_ty(code: &str) -> RustType {
    let t = ty(code);
    let name = normalize_ty_lifetimes(&t);
    RustType::new(t, &name)
}

fn params(names: &[&str]) -> TyParamsSubstMap {
    let mut map = TyParamsSubstMap::new();
    for name in names {
        map.insert(name, None);
    }
    map
}

fn bound_to(map: &TyParamsSubstMap, name: &str) -> Option<String> {
    map.get(name).unwrap().as_ref().map(normalize_ty_lifetimes)
}

fn bounded(name: &str, traits: &[&str]) -> Generics {
    Generics {
        span: Span::call_site(),
        type_params: vec![TypeParam {
            ident: name.to_string(),
            bounds: traits.iter().map(|t| TypeParamBound::Trait(t.to_string())).collect(),
        }],
        where_clause: None,
    }
}

#[test]
fn parsed_types_have_the_expected_shape() {
    assert_eq!(
        ty("Foo"),
        TypeExpr::Path {
            global: false,
            segments: vec![PathSegment { ident: "Foo".to_string(), arguments: None }],
        }
    );
    assert_eq!(
        ty("&'a mut [u8]"),
        TypeExpr::Reference {
            lifetime: Some("a".to_string()),
            mutable: true,
            elem: Box::new(TypeExpr::Slice { elem: Box::new(TypeExpr::ident("u8")) }),
        }
    );
    assert_eq!(
        ty("::a::B<'x, C, 3>"),
        TypeExpr::Path {
            global: true,
            segments: vec![
                PathSegment { ident: "a".to_string(), arguments: None },
                PathSegment {
                    ident: "B".to_string(),
                    arguments: Some(vec![
                        GenericArgument::Lifetime("x".to_string()),
                        GenericArgument::Type(TypeExpr::ident("C")),
                        GenericArgument::Other("3".to_string()),
                    ]),
                },
            ],
        }
    );
    assert_eq!(ty("(A, B)"), TypeExpr::Tuple { elems: vec![ty("A"), ty("B")] });
    assert_eq!(ty("(A, B,)"), ty("(A, B)"));
    assert_eq!(ty("(A,)"), TypeExpr::Tuple { elems: vec![ty("A")] });
    assert_eq!(ty("()"), TypeExpr::Tuple { elems: vec![] });
    assert_eq!(
        ty("*const u8"),
        TypeExpr::Around {
            prefix: "* const".to_string(),
            elem: Box::new(ty("u8")),
            suffix: String::new(),
        }
    );
    assert_eq!(
        ty("[&'a T; 4]"),
        TypeExpr::Around {
            prefix: "[".to_string(),
            elem: Box::new(ty("&'a T")),
            suffix: "; 4 ]".to_string(),
        }
    );
    assert_eq!(
        ty("(Foo)"),
        TypeExpr::Around {
            prefix: "(".to_string(),
            elem: Box::new(ty("Foo")),
            suffix: ")".to_string(),
        }
    );
    assert_eq!(ty("fn(u8) -> u8"), TypeExpr::Other { text: "fn ( u8 ) -> u8".to_string() });
    assert_eq!(
        ty("<T as Iterator>::Item"),
        TypeExpr::Other { text: "< T as Iterator > :: Item".to_string() }
    );
    assert_eq!(ty("Fn(u8) -> u8"), TypeExpr::Other { text: "Fn ( u8 ) -> u8".to_string() });
    assert!(parse_type("Foo<").is_err());
    assert!(parse_type("").is_err());
    assert_eq!(TypeExpr::generic("Vec", vec![ty("u8")]), ty("Vec<u8>"));
    assert_eq!(TypeExpr::reference(true, ty("u8")), ty("&mut u8"));
}

#[test]
fn token_text_keeps_lifetimes_and_normalizing_drops_them() {
    let t = ty("&'a mut Foo<'b, Bar<'c>, &'d [u8]>");
    assert_eq!(token_text(&t), "& 'a mut Foo < 'b , Bar < 'c > , & 'd [ u8 ] >");
    assert_eq!(normalize_ty_lifetimes(&t), "& mut Foo < Bar < > , & [ u8 ] >");
    assert_eq!(strip_lifetimes(&t), ty("&mut Foo<Bar<>, &[u8]>"));
}

#[test]
fn normalization_is_idempotent_and_erases_lifetimes() {
    for code in ["&'a str", "Foo<'a, T>", "(&'x A, [B<'y>])", "Rc<RefCell<Foo<'a>>>", "*const T"] {
        let t = ty(code);
        let erased = strip_lifetimes(&t);
        assert_eq!(strip_lifetimes(&erased), erased);
        assert_eq!(normalize_ty_lifetimes(&erased), normalize_ty_lifetimes(&t));
        assert!(swig_typemap::normalize::list_lifetimes(&erased).is_empty());
    }
    assert_eq!(normalize_ty_lifetimes(&ty("&str")), normalize_ty_lifetimes(&ty("&'static str")));
    assert_eq!(
        normalize_ty_lifetimes(&ty("Foo<'a, T, 'b>")),
        normalize_ty_lifetimes(&ty("Foo<T>"))
    );
}

#[test]
fn lifetimes_are_listed_in_the_order_written() {
    assert_eq!(
        swig_typemap::normalize::list_lifetimes(&ty("&'a Foo<'b, (&'c u8, Bar<'d>)>")),
        vec!["'a", "'b", "'c", "'d"]
    );
    assert!(swig_typemap::normalize::list_lifetimes(&ty("Vec<u8>")).is_empty());
}

#[test]
fn wrapper_pattern_binds_its_parameter() {
    let mut map = params(&["T"]);
    assert!(is_second_subst_of_first(&ty("Wrapper<T>"), &ty("Wrapper<Inner<Foo>>"), &mut map));
    assert_eq!(map.len(), 1);
    assert_eq!(bound_to(&map, "T"), Some("Inner < Foo >".to_string()));
    assert_eq!(map.get("T").unwrap().as_ref().unwrap(), &ty("Inner<Foo>"));
    assert!(map.get("U").is_none());
}

#[test]
fn bare_parameter_binds_a_single_segment_path_only() {
    let mut map = params(&["T"]);
    assert!(is_second_subst_of_first(&ty("T"), &ty("Vec<u8>"), &mut map));
    assert_eq!(bound_to(&map, "T"), Some("Vec < u8 >".to_string()));

    let mut map = params(&["T"]);
    assert!(!is_second_subst_of_first(&ty("T"), &ty("std::vec::Vec<u8>"), &mut map));
    assert_eq!(bound_to(&map, "T"), None);

    let mut map = params(&["T"]);
    assert!(!is_second_subst_of_first(&ty("T"), &ty("&u8"), &mut map));
    assert_eq!(bound_to(&map, "T"), None);
}

#[test]
fn repeated_parameter_has_to_stand_for_one_type() {
    let mut map = params(&["T"]);
    assert!(is_second_subst_of_first(&ty("Pair<T, T>"), &ty("Pair<u8, u8>"), &mut map));
    assert_eq!(bound_to(&map, "T"), Some("u8".to_string()));

    let mut map = params(&["T"]);
    assert!(!is_second_subst_of_first(&ty("Pair<T, T>"), &ty("Pair<u8, u16>"), &mut map));
    assert_eq!(bound_to(&map, "T"), Some("u8".to_string()));
}

#[test]
fn mismatches_of_shape_arity_and_mutability_fail() {
    let cases = [
        ("&mut T", "&T"),
        ("&T", "&mut T2"),
        ("(T, T2)", "(u8,)"),
        ("(T,)", "(u8, u8)"),
        ("()", "(u8,)"),
        ("[T]", "&[u8]"),
        ("&[T]", "&u8"),
        ("[T]", "(u8,)"),
        ("Foo<T>", "Foo<u8, u8>"),
        ("Foo<T>", "Foo"),
        ("Foo", "Foo<u8>"),
        ("a::Foo<T>", "Foo<u8>"),
        ("Foo<T>", "Bar<u8>"),
        ("Foo<'a, T>", "Foo<'b, u8>"),
        ("*const T", "*const u8"),
    ];
    for (pattern, concrete) in cases {
        let mut map = params(&["T", "T2"]);
        assert!(
            !is_second_subst_of_first(&ty(pattern), &ty(concrete), &mut map),
            "{} against {}",
            pattern,
            concrete
        );
    }
}

#[test]
fn tuples_are_named_as_the_type_parser_keeps_them() {
    let printed = |code: &str| {
        quote::ToTokens::into_token_stream(syn::parse_str::<syn::Type>(code).unwrap()).to_string()
    };
    for code in ["(A, &'a B,)", "(A, &'a B)", "(A,)", "((A, B,), C,)", "()"] {
        assert_eq!(swig_typemap::normalize::token_text(&ty(code)), printed(code), "{}", code);
    }
    assert_eq!(normalize_ty_lifetimes(&ty("(A, &'a B,)")), "( A , & B )");
    assert_eq!(normalize_ty_lifetimes(&ty("(&'a A,)")), "( & A , )");
    let mut map = params(&["T"]);
    assert!(is_second_subst_of_first(&ty("(W<T>, u8)"), &ty("(W<u16>, u8,)"), &mut map));
    assert_eq!(bound_to(&map, "T"), Some("u16".to_string()));
}

#[test]
fn pointers_arrays_and_parentheses_are_looked_into() {
    assert_eq!(normalize_ty_lifetimes(&ty("*mut Foo<'a>")), "* mut Foo < >");
    assert_eq!(normalize_ty_lifetimes(&ty("*const &'a str")), "* const & str");
    assert_eq!(normalize_ty_lifetimes(&ty("[&'a T; 4]")), "[ & T ; 4 ]");
    assert_eq!(normalize_ty_lifetimes(&ty("(&'a T)")), "( & T )");
    assert_eq!(normalize_ty_lifetimes(&ty("Vec<*const [Foo<'a, T>; N]>")), "Vec < * const [ Foo < T > ; N ] >");
    assert_eq!(
        swig_typemap::normalize::list_lifetimes(&ty("*mut [&'a Foo<'b>; 2]")),
        vec!["'a", "'b"]
    );
    assert_eq!(
        ty("I<Item = &'a T>"),
        TypeExpr::Path {
            global: false,
            segments: vec![PathSegment {
                ident: "I".to_string(),
                arguments: Some(vec![GenericArgument::Binding {
                    ident: "Item".to_string(),
                    ty: ty("&'a T"),
                }]),
            }],
        }
    );
    assert_eq!(normalize_ty_lifetimes(&ty("I<'x, Item = &'a T>")), "I < Item = & T >");
    assert_eq!(swig_typemap::normalize::list_lifetimes(&ty("I<Item = &'a T>")), vec!["'a"]);
    let mut map = params(&["T"]);
    map.bind(0, ty("u8"));
    assert_eq!(replace_all_types_with(&ty("*mut [(T); 2]"), &map), ty("*mut [(u8); 2]"));
    assert_eq!(replace_all_types_with(&ty("I<Item = T>"), &map), ty("I<Item = u8>"));
    let mut map = params(&["T"]);
    assert!(!is_second_subst_of_first(&ty("I<Item = T>"), &ty("I<Item = u8>"), &mut map));
    assert!(is_second_subst_of_first(&ty("I<Item = u8>"), &ty("I<Item = u8>"), &mut map));
    let mut map = params(&["T"]);
    assert!(!is_second_subst_of_first(&ty("*mut T"), &ty("*mut u8"), &mut map));
    assert!(is_second_subst_of_first(&ty("*mut [u8; 2]"), &ty("*mut [u8; 2]"), &mut map));
    assert!(!is_second_subst_of_first(&ty("*mut &'a u8"), &ty("*mut &'b u8"), &mut map));
    assert!(!is_second_subst_of_first(&ty("*mut u8"), &ty("*const u8"), &mut map));
    assert!(!is_second_subst_of_first(&ty("[u8; 2]"), &ty("[u8; 3]"), &mut map));
}

#[test]
fn equal_shapes_unify() {
    let mut map = params(&["T"]);
    assert!(is_second_subst_of_first(&ty("()"), &ty("()"), &mut map));
    assert!(is_second_subst_of_first(&ty("&'a mut [T]"), &ty("&'b mut [u8]"), &mut map));
    assert_eq!(bound_to(&map, "T"), Some("u8".to_string()));
    assert!(is_second_subst_of_first(&ty("*const u8"), &ty("*const u8"), &mut map));
    assert!(is_second_subst_of_first(&ty("::a::B"), &ty("a::B"), &mut map));
    assert!(is_second_subst_of_first(&ty("Foo<'a, 3>"), &ty("Foo<'a, 3>"), &mut map));
}

#[test]
fn failure_keeps_the_bindings_made_before_it() {
    let mut map = params(&["A", "B"]);
    assert!(!is_second_subst_of_first(&ty("(W<A>, &mut B)"), &ty("(W<u8>, &u16)"), &mut map));
    assert_eq!(bound_to(&map, "A"), Some("u8".to_string()));
    assert_eq!(bound_to(&map, "B"), None);
}

#[test]
fn substitution_map_keeps_order_and_names_once() {
    let mut map = TyParamsSubstMap::new();
    map.insert("T", None);
    map.insert("E", Some(ty("u8")));
    map.insert("T", Some(ty("u16")));
    assert_eq!(map.len(), 2);
    let names: Vec<&str> = map.as_slice().iter().map(|e| e.ident.as_str()).collect();
    assert_eq!(names, vec!["T", "E"]);
    assert_eq!(map.position("E"), Some(1));
    assert_eq!(map.position("X"), None);
    assert_eq!(map.ident(0), "T");
    assert_eq!(map.binding(0).as_ref(), Some(&ty("u16")));
    map.bind(1, ty("i8"));
    assert_eq!(bound_to(&map, "E"), Some("i8".to_string()));
}

#[test]
fn substitution_replaces_bound_parameters_only() {
    let mut map = params(&["T", "E"]);
    map.bind(0, ty("Vec<E>"));
    assert_eq!(
        replace_all_types_with(&ty("(T, &mut [T], Foo<'a, T, E>, *const T)"), &map),
        ty("(Vec<E>, &mut [Vec<E>], Foo<'a, Vec<E>, E>, *const Vec<E>)")
    );
    assert_eq!(replace_all_types_with(&ty("&'a T"), &map), ty("&'a Vec<E>"));
}

#[test]
fn unwrapping_and_wrapping_again_gives_the_type_back() {
    let original = rust_ty("Wrapper<Wrapper<Bool>>");
    let nothing = RegisteredTypes::new();
    let unwrap = GenericTypeConv::simple_new(
        ty("Wrapper<T>"),
        ty("T"),
        Generics::unbounded(&vec!["T".to_string()]),
    );
    let wrap = GenericTypeConv::simple_new(
        ty("T"),
        ty("Wrapper<T>"),
        Generics::unbounded(&vec!["T".to_string()]),
    );
    let (inner, inner_name) = unwrap.is_conv_possible(&original, None, &nothing).unwrap();
    assert_eq!(inner, ty("Wrapper<Bool>"));
    assert_eq!(inner_name.as_str(), "Wrapper < Bool >");
    let (again, again_name) = wrap
        .is_conv_possible(&RustType::new(inner, inner_name.as_str()), None, &nothing)
        .unwrap();
    assert_eq!(again, original.ty);
    assert_eq!(again_name.as_str(), original.name());
}

#[test]
fn capability_bounds_are_checked_against_the_registry() {
    let pair = Generics {
        span: Span::call_site(),
        type_params: vec![
            TypeParam {
                ident: "T1".to_string(),
                bounds: vec![TypeParamBound::Trait("SwigForeignClass".to_string())],
            },
            TypeParam {
                ident: "T2".to_string(),
                bounds: vec![TypeParamBound::Trait("SwigForeignClass".to_string())],
            },
        ],
        where_clause: None,
    };
    let capable = |name: &str| rust_ty(name).implements("SwigForeignClass");
    let rule = |g: &Generics| {
        GenericTypeConv::simple_new(ty("Pair<T1, T2>"), ty("CRustObjectPair"), g.clone_generics())
    };
    let input = rust_ty("Pair<One, Two>");

    let mut both = RegisteredTypes::new();
    both.add("One", capable("One"));
    both.add("Two", capable("Two"));
    let (to, name) = rule(&pair).is_conv_possible(&input, None, &both).unwrap();
    assert_eq!(to, ty("CRustObjectPair"));
    assert_eq!(name.as_str(), "CRustObjectPair");

    let mut first_only = RegisteredTypes::new();
    first_only.add("One", capable("One"));
    first_only.add("Two", rust_ty("Two"));
    assert!(rule(&pair).is_conv_possible(&input, None, &first_only).is_none());

    let mut second_only = RegisteredTypes::new();
    second_only.add("One", rust_ty("One").implements("Other"));
    second_only.add("Two", capable("Two"));
    assert!(rule(&pair).is_conv_possible(&input, None, &second_only).is_none());

    let mut unknown = RegisteredTypes::new();
    unknown.add("One", capable("One"));
    assert!(rule(&pair).is_conv_possible(&input, None, &unknown).is_none());

    assert!(rule(&pair).is_conv_possible(&rust_ty("Triple<One, Two>"), None, &both).is_none());
}

#[test]
fn registered_types_go_by_the_last_registration() {
    let mut table = RegisteredTypes::new();
    assert!(table.lookup("Foo").is_none());
    table.add("Foo", rust_ty("Foo").implements("A"));
    table.add("Foo", rust_ty("Foo").implements("B"));
    let found = table.lookup("Foo").unwrap();
    assert!(!found.implements.contains("A"));
    assert!(found.implements.contains("B"));
    assert!(table.lookup("Bar").is_none());
}

#[test]
fn trait_name_sets_behave_as_sets() {
    let mut a = TraitNamesSet::new();
    assert!(a.is_empty());
    a.insert("X");
    a.insert("Y");
    a.insert("X");
    let mut b = TraitNamesSet::new();
    b.insert("Y");
    assert!(a.contains("X") && a.contains("Y") && !a.contains("Z"));
    assert!(a.contains_subset(&b));
    assert!(!b.contains_subset(&a));
    assert!(a.contains_subset(&TraitNamesSet::new()));
    assert!(!a.is_empty());
}

#[test]
fn where_clause_bounds_go_by_the_canonical_name_of_the_type() {
    let generics = Generics {
        span: Span::call_site(),
        type_params: vec![
            TypeParam { ident: "T".to_string(), bounds: vec![] },
            TypeParam {
                ident: "U".to_string(),
                bounds: vec![TypeParamBound::Lifetime("a".to_string())],
            },
            TypeParam {
                ident: "V".to_string(),
                bounds: vec![
                    TypeParamBound::Trait("A".to_string()),
                    TypeParamBound::Lifetime("a".to_string()),
                    TypeParamBound::Trait("B".to_string()),
                ],
            },
        ],
        where_clause: Some(vec![
            swig_typemap::trait_bounds::WherePredicate::Other,
            swig_typemap::trait_bounds::WherePredicate::Type {
                bounded_ty: ty("Vec<&'a T>"),
                bounds: vec![TypeParamBound::Trait("C".to_string())],
            },
            swig_typemap::trait_bounds::WherePredicate::Type {
                bounded_ty: ty("T"),
                bounds: vec![TypeParamBound::Lifetime("a".to_string())],
            },
        ]),
    };
    let bounds = swig_typemap::trait_bounds::get_trait_bounds(&generics);
    assert_eq!(bounds.len(), 2);
    let first = bounds.get(0).unwrap();
    assert_eq!(first.ty_param, "V");
    assert!(first.trait_names.contains("A") && first.trait_names.contains("B"));
    let second = bounds.get(1).unwrap();
    assert_eq!(second.ty_param, "Vec < & T >");
    assert!(second.trait_names.contains("C"));
    assert!(bounds.get(2).is_none());
    assert_eq!(bounds.position("V"), Some(0));
    assert_eq!(bounds.position("T"), None);
}

#[test]
fn unbound_parameters_are_resolved_against_the_goal() {
    let rule = GenericTypeConv::simple_new(
        ty("jlong"),
        ty("Box<T>"),
        Generics::unbounded(&vec!["T".to_string()]),
    );
    let nothing = RegisteredTypes::new();
    let (to, name) =
        rule.is_conv_possible(&rust_ty("jlong"), Some(&rust_ty("Box<Foo>")), &nothing).unwrap();
    assert_eq!(to, ty("Box<Foo>"));
    assert_eq!(name.as_str(), "Box < Foo >");

    let (to, name) = rule.is_conv_possible(&rust_ty("jlong"), None, &nothing).unwrap();
    assert_eq!(to, ty("Box<T>"));
    assert_eq!(name.as_str(), "Box < T >");

    let (to, _) =
        rule.is_conv_possible(&rust_ty("jlong"), Some(&rust_ty("Rc<Foo>")), &nothing).unwrap();
    assert_eq!(to, ty("Box<T>"));
}

#[test]
fn to_hint_gives_the_destination_its_suffix() {
    let mut foo = RegisteredTypes::new();
    foo.add("Foo", rust_ty("Foo").implements("SwigForeignClass"));
    let hinted = GenericTypeConv {
        to_foreigner_hint: Some("T []".to_string()),
        ..GenericTypeConv::simple_new(
            ty("Vec<T>"),
            ty("jobjectArray"),
            bounded("T", &["SwigForeignClass"]),
        )
    };
    let plain = GenericTypeConv::simple_new(
        ty("Vec<T>"),
        ty("jobjectArray"),
        bounded("T", &["SwigForeignClass"]),
    );
    let (to, name) = hinted.is_conv_possible(&rust_ty("Vec<Foo>"), None, &foo).unwrap();
    let (plain_to, plain_name) = plain.is_conv_possible(&rust_ty("Vec<Foo>"), None, &foo).unwrap();
    assert_eq!(to, ty("jobjectArray"));
    assert_eq!(to, plain_to);
    assert_eq!(name.as_str(), "jobjectArray\0Foo []");
    assert_eq!(plain_name.as_str(), "jobjectArray");
    assert_ne!(name.as_str(), plain_name.as_str());
}

#[test]
fn from_hint_admits_only_the_type_of_that_foreign_name() {
    let mut foo = RegisteredTypes::new();
    foo.add("Foo", rust_ty("Foo").implements("SwigForeignClass"));
    let rule = GenericTypeConv {
        from_foreigner_hint: Some("T []".to_string()),
        ..GenericTypeConv::simple_new(
            ty("jobjectArray"),
            ty("Vec<T>"),
            bounded("T", &["SwigForeignClass"]),
        )
    };
    let goal = rust_ty("Vec<Foo>");
    let of_foo = RustType::new(ty("jobjectArray"), "jobjectArray\0Foo []");
    let of_bar = RustType::new(ty("jobjectArray"), "jobjectArray\0Bar []");
    let bare = rust_ty("jobjectArray");

    let (to, name) = rule.is_conv_possible(&of_foo, Some(&goal), &foo).unwrap();
    assert_eq!(to, ty("Vec<Foo>"));
    assert_eq!(name.as_str(), "Vec < Foo >");
    assert!(rule.is_conv_possible(&of_bar, Some(&goal), &foo).is_none());
    assert!(rule.is_conv_possible(&bare, Some(&goal), &foo).is_none());
    assert!(rule.is_conv_possible(&bare, None, &foo).is_some());
}

#[test]
fn shape_queries_answer_for_every_shape() {
    assert_eq!(if_option_return_some_type(&rust_ty("Option<&'a str>")), Some(ty("&'a str")));
    assert!(if_option_return_some_type(&rust_ty("Vec<u8>")).is_none());
    assert!(if_option_return_some_type(&rust_ty("Option<u8, u8>")).is_none());
    assert_eq!(
        check_if_smart_pointer_return_inner_type(&rust_ty("std::rc::Rc<u8>"), "std::rc::Rc"),
        Some(ty("u8"))
    );
    assert!(check_if_smart_pointer_return_inner_type(&rust_ty("Rc<u8>"), "Arc").is_none());
    assert_eq!(smart_pointer_inner_type(&rust_ty("Rc<u8>"), "Rc"), Ok(Some(ty("u8"))));
    assert_eq!(smart_pointer_inner_type(&rust_ty("Rc<u8>"), "Arc"), Ok(None));
    assert_eq!(
        smart_pointer_inner_type(&rust_ty("Rc<u8>"), "Rc<").err(),
        parse_type("Rc<<T>").err()
    );
    assert!(smart_pointer_inner_type(&rust_ty("Rc<u8>"), "Rc<").is_err());
    assert_eq!(if_type_slice_return_elem_type(&ty("&mut [u8]"), true), Some(&ty("u8")));
    assert!(if_type_slice_return_elem_type(&ty("&mut [u8]"), false).is_none());
    assert!(if_type_slice_return_elem_type(&ty("[u8]"), true).is_none());
}

#[test]
fn a_match_gives_the_type_back_when_the_bound_types_are_put_in() {
    let cases = [
        ("T", "Foo<u8>", &["T"][..]),
        ("Wrapper<T>", "Wrapper<Inner<Foo>>", &["T"][..]),
        ("Result<T, E>", "Result<Vec<u8>, &'static str>", &["T", "E"][..]),
        ("(W<A>, &mut [W<B>], W<A>)", "(W<u8>, &mut [W<u16>], W<u8>)", &["A", "B"][..]),
        ("&'a Rc<RefCell<T>>", "&'b Rc<RefCell<Foo<'c>>>", &["T"][..]),
        ("::std::rc::Rc<T>", "std::rc::Rc<u8>", &["T"][..]),
        ("Map<K, V, K>", "Map<u8, (u8, K2), u8>", &["K", "V"][..]),
        ("*const u8", "*const u8", &["T"][..]),
    ];
    for (pattern, concrete, names) in cases {
        let mut map = params(names);
        assert!(is_second_subst_of_first(&ty(pattern), &ty(concrete), &mut map), "{}", pattern);
        let put = replace_all_types_with(&ty(pattern), &map);
        let name = normalize_ty_lifetimes(&put);
        assert_eq!(
            name.trim_start_matches(":: "),
            normalize_ty_lifetimes(&ty(concrete)),
            "{} against {}",
            pattern,
            concrete
        );
    }
}

#[test]
fn a_lifetime_behind_dyn_is_not_handed_to_the_parser() {
    assert_eq!(parse_type("for<'a> dyn 'b + Trait").err().unwrap(), UNREADABLE_TYPE);
    assert_eq!(parse_type("Box<for<'a> dyn 'b + Trait>").err().unwrap(), UNREADABLE_TYPE);
    assert_eq!(parse_type("&(for<'a> dyn\t\n 'b + Trait)").err().unwrap(), UNREADABLE_TYPE);
    assert_eq!(parse_type("for<'a> dyn/**/'b + Trait").err().unwrap(), UNREADABLE_TYPE);
    assert_eq!(parse_type("for<'a> dyn /* b */ // c\n 'b + Trait").err().unwrap(), UNREADABLE_TYPE);
    assert_eq!(token_text(&ty("[u8; 4 / 2]")), "[ u8 ; 4 / 2 ]");
    assert_eq!(ty("Foo // a comment"), TypeExpr::ident("Foo"));
    assert_eq!(ty("Foo /* 'a */ <'a>"), ty("Foo<'a>"));

    assert!(!is_readable("dyn 'a + Trait"));
    assert!(!is_readable("dyn'a"));
    assert!(!is_readable("dyn \u{a0}\u{2003}'a"));
    assert!(!is_readable("dyn / 'a"));
    assert!(!is_readable("dyn /* T */ 'a"));
    assert!(is_readable("Foo // a comment"));
    assert!(is_readable("dyn T / 'a"));
    assert!(is_readable("'a / dyn T"));
    assert!(is_readable(""));
    assert!(is_readable("dyn"));
    assert!(is_readable("Box<dyn Trait + 'a>"));
    assert!(is_readable("&'a dyn Trait"));
    assert!(is_readable("for<'a> dyn Fn(&'a u8)"));
    assert!(is_readable("dynamic<'a>"));
    assert!(is_readable("dy n 'a"));

    let kept = ty("Box<dyn Trait + 'a>");
    assert_eq!(token_text(&kept), "Box < dyn Trait + 'a >");
    let higher = ty("Box<for<'a> dyn Fn(&'a u8)>");
    assert_eq!(token_text(&higher), "Box < dyn for < 'a > Fn ( & 'a u8 ) >");
}

#[test]
fn a_type_is_taken_apart_whole_or_not_read() {
    let fits = format!("{}u8", "&".repeat(MAX_TYPE_OPENERS));
    assert!(is_readable(&fits));
    assert!(MAX_TYPE_OPENERS < MAX_TYPE_DEPTH);
    let mut t = &parse_type(&fits).unwrap();
    let mut levels = 0;
    while let TypeExpr::Reference { elem, .. } = t {
        t = elem;
        levels += 1;
    }
    assert_eq!(levels, MAX_TYPE_OPENERS);
    assert_eq!(*t, TypeExpr::ident("u8"));
    assert_eq!(lower_type(&fits, MAX_TYPE_OPENERS).err().unwrap(), TYPE_TOO_DEEP);
    assert!(lower_type(&fits, MAX_TYPE_OPENERS + 1).is_ok());

    let nested = format!("{}u8{}", "A<".repeat(MAX_TYPE_OPENERS), ">".repeat(MAX_TYPE_OPENERS));
    let mut t = &parse_type(&nested).unwrap();
    let mut levels = 0;
    while let TypeExpr::Path { segments, .. } = t {
        match segments[0].arguments.as_ref().map(|a| &a[0]) {
            Some(GenericArgument::Type(inner)) => t = inner,
            _ => break,
        }
        levels += 1;
    }
    assert_eq!(levels, MAX_TYPE_OPENERS);

    for deeper in [
        format!("{}u8", "&".repeat(MAX_TYPE_OPENERS + 1)),
        format!("{}u8", "&".repeat(100_000)),
        format!("{}u8{}", "A<".repeat(1000), ">".repeat(1000)),
        format!("{}u8{}", "(".repeat(1000), ")".repeat(1000)),
        format!("[u8; {}1]", "box ".repeat(1000)),
        format!("{}u8", "fn() -> ".repeat(1000)),
    ] {
        assert!(!is_readable(&deeper));
        assert_eq!(parse_type(&deeper).err().unwrap(), UNREADABLE_TYPE);
    }
    assert!(is_readable(&format!("[u8; {}1]", "box ".repeat(10))));
    assert!(is_readable(&format!("{}::T", "a::".repeat(1000))));
    assert!(is_readable(&format!("({})", "A, ".repeat(1000))));
    assert!(!is_readable(&format!("[u8; 1] {}", "a ".repeat(40))));

    assert_eq!(lower_type("u8", 0).err().unwrap(), TYPE_TOO_DEEP);
    assert_eq!(lower_type("u8", 1).unwrap(), TypeExpr::ident("u8"));
    assert_eq!(lower_type("Vec<u8>", 1).err().unwrap(), TYPE_TOO_DEEP);
    assert_eq!(lower_type("Vec<u8>", 2).unwrap(), ty("Vec<u8>"));
    assert_eq!(lower_type("(A, (B, [C]))", 3).err().unwrap(), TYPE_TOO_DEEP);
    assert_eq!(lower_type("(A, (B, [C]))", 4).unwrap(), ty("(A, (B, [C]))"));
    assert_eq!(lower_type("Vec<'a>", 1).unwrap(), ty("Vec<'a>"));
    assert_eq!(lower_type("Vec<", 0).err(), parse_type("Vec<").err());
}

#[test]
fn a_canonical_name_reads_back_as_a_type_of_that_name() {
    for code in [
        "u8",
        "&'a mut Foo<'b, Bar<'c>, &'d [u8]>",
        "::std::collections::HashMap<String, Vec<(i32, &'a str)>>",
        "(A,)",
        "()",
        "*const [T; 4]",
        "*mut (dyn Trait + 'a)",
        "Box<dyn Fn(&'a u8) -> u8>",
        "Iterator<Item = &'a T>",
        "<T as Trait>::Out",
        "fn(&'a u8) -> &'a u8",
        "Foo<'a>",
        "&'static str",
    ] {
        let name = normalize_ty_lifetimes(&ty(code));
        let back = parse_type(&name).unwrap();
        assert_eq!(normalize_ty_lifetimes(&back), name, "{}", code);
        assert_eq!(strip_lifetimes(&back), back, "{}", code);
    }
}
