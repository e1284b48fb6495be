use quote::ToTokens;

use swig_typemap::normalize::{list_lifetimes, normalize_ty_lifetimes};
use swig_typemap::queries::{
    check_if_smart_pointer_return_inner_type, if_option_return_some_type,
    if_result_return_ok_err_types, if_ty_result_return_ok_type, if_type_slice_return_elem_type,
    if_vec_return_elem_type,
};
use swig_typemap::rule::{GenericTypeConv, RegisteredTypes};
use swig_typemap::rust_type::{RustType, TraitNamesSet};
use swig_typemap::source::{SourceId, Span};
use swig_typemap::subst_map::TyParamsSubstMap;
use swig_typemap::substitute::replace_all_types_with;
use swig_typemap::syntax::parse_type;
use swig_typemap::trait_bounds::{
    get_trait_bounds, Generics, TypeParam, TypeParamBound, WherePredicate,
};
use swig_typemap::type_expr::TypeExpr;

fn str_to_ty(code: &str) -> TypeExpr {
    parse_type(code).unwrap()
}

fn str_to_rust_ty(code: &str) -> RustType {
    let ty = str_to_ty(code);
    let name = normalize_ty_lifetimes(&ty);
    RustType::new_without_graph_idx(ty, &name, SourceId::none())
}

fn lower_bounds(
    bounds: &syn::punctuated::Punctuated<syn::TypeParamBound, syn::token::Add>,
) -> Vec<TypeParamBound> {
    bounds
        .iter()
        .map(|b| match b {
            syn::TypeParamBound::Trait(t) => {
                TypeParamBound::Trait((&t.path).into_token_stream().to_string())
            }
            syn::TypeParamBound::Lifetime(l) => TypeParamBound::Lifetime(l.ident.to_string()),
        })
        .collect()
}

fn lower_generics(generics: &syn::Generics) -> Generics {
    Generics {
        span: Span::call_site(),
        type_params: generics
            .type_params()
            .map(|p| TypeParam { ident: p.ident.to_string(), bounds: lower_bounds(&p.bounds) })
            .collect(),
        where_clause: generics.where_clause.as_ref().map(|w| {
            w.predicates
                .iter()
                .map(|p| match p {
                    syn::WherePredicate::Type(t) => WherePredicate::Type {
                        bounded_ty: str_to_ty(&(&t.bounded_ty).into_token_stream().to_string()),
                        bounds: lower_bounds(&t.bounds),
                    },
                    _ => WherePredicate::Other,
                })
                .collect()
        }),
    }
}

fn get_generic_params_from_code(code: &str) -> Generics {
    let item: syn::ItemImpl = syn::parse_str(code).unwrap();
    lower_generics(&item.generics)
}

fn lookup_in(entries: Vec<(&str, RustType)>) -> RegisteredTypes {
    let mut table = RegisteredTypes::new();
    for (name, ty) in entries {
        table.add(name, ty);
    }
    table
}

fn check_subst(
    generic: &Generics,
    from_ty_name: &str,
    to_ty_name: &str,
    ty_check_name: &str,
    expect_to_ty_name: &str,
    map_others: &RegisteredTypes,
) -> RustType {
    println!("check_subst: conv {} -> {} with {}", from_ty_name, to_ty_name, ty_check_name);
    let (ret_ty, ret_ty_name) = GenericTypeConv::simple_new(
        str_to_ty(from_ty_name),
        str_to_ty(to_ty_name),
        generic.clone_generics(),
    )
    .is_conv_possible(&str_to_rust_ty(ty_check_name), None, map_others)
    .expect("check subst failed");
    assert_eq!(ret_ty_name.as_str(), normalize_ty_lifetimes(&str_to_ty(expect_to_ty_name)));
    RustType::new_without_graph_idx(ret_ty, ret_ty_name.as_str(), SourceId::none())
}

#[test]
fn test_normalize_ty() {
    assert_eq!(normalize_ty_lifetimes(&str_to_ty("&str")), "& str");
    assert_eq!(normalize_ty_lifetimes(&str_to_ty("&'a str")), "& str");
    assert_eq!(normalize_ty_lifetimes(&str_to_ty("string")), "string");
    assert_eq!(normalize_ty_lifetimes(&str_to_ty("()")), "( )");
    assert_eq!(normalize_ty_lifetimes(&str_to_ty("Foo<'a, T>")), "Foo < T >");
}

#[test]
fn generic_type_conv_find() {
    let generic = get_generic_params_from_code(
        r#"
        #[swig_to_foreigner_hint = "T []"]
        impl<T: SwigForeignClass> SwigFrom<Vec<T>> for jobjectArray {
            fn swig_from(x: Vec<T>, env: *mut JNIEnv) -> Self {
                vec_of_objects_to_jobject_array(x, <T>::jni_class_name(), env)
            }
        }
        "#,
    );

    let foo_spec = || {
        RustType::new_without_graph_idx(str_to_ty("Foo"), "Foo", SourceId::none())
            .implements("SwigForeignClass")
    };
    let refcell_foo_spec = || {
        RustType::new_without_graph_idx(str_to_ty("RefCell<Foo>"), "RefCell<Foo>", SourceId::none())
            .implements("SwigForeignClass")
    };
    let nothing = RegisteredTypes::new();

    let pair_generic = get_generic_params_from_code(
        r#"
        impl<T1: SwigForeignClass, T2: SwigForeignClass> SwigFrom<(T1, T2)> for CRustObjectPair {
            fn swig_from((x1, x2): (T1, T2)) -> Self {
                unimplemented!();
            }
        }
        "#,
    );

    let one_spec = RustType::new_without_graph_idx(str_to_ty("One"), "One", SourceId::none())
        .implements("SwigForeignClass");
    let two_spec = RustType::new_without_graph_idx(str_to_ty("One"), "One", SourceId::none())
        .implements("SwigForeignClass");
    check_subst(
        &pair_generic,
        "(T1, T2)",
        "CRustObjectPair",
        "(One, Two)",
        "CRustObjectPair",
        &lookup_in(vec![("One", one_spec), ("Two", two_spec)]),
    );

    check_subst(
        &generic,
        "Rc<T>",
        "jlong",
        "Rc<RefCell<Foo>>",
        "jlong",
        &lookup_in(vec![("Foo", foo_spec()), ("RefCell < Foo >", refcell_foo_spec())]),
    );

    check_subst(
        &generic,
        "Vec<T>",
        "jobjectArray",
        "Vec<Foo>",
        "jobjectArray",
        &lookup_in(vec![("Foo", foo_spec())]),
    );

    let generic = get_generic_params_from_code(
        r#"
        impl<'a, T> SwigFrom<&'a RefCell<T>> for RefMut<'a, T> {
            fn swig_from(m: &'a RefCell<T>, _: *mut JNIEnv) -> RefMut<'a, T> {
                m.borrow_mut()
            }
        }
        "#,
    );

    check_subst(&generic, "&RefCell<T>", "RefMut<T>", "&RefCell<Foo>", "RefMut<Foo>", &nothing);

    check_subst(&generic, "&Rc<T>", "&T", "&Rc<RefCell<Foo>>", "&RefCell<Foo>", &nothing);

    check_subst(
        &generic,
        "Arc<Mutex<T>>",
        "&Mutex<T>",
        "Arc<Mutex<Foo>>",
        "&Mutex<Foo>",
        &nothing,
    );

    let mutex_guard_foo = check_subst(
        &generic,
        "&Mutex<T>",
        "MutexGuard<T>",
        "&Mutex<Foo>",
        "MutexGuard<Foo>",
        &nothing,
    );
    assert_eq!(
        GenericTypeConv::simple_new(
            str_to_ty("MutexGuard<T>"),
            str_to_ty("&T"),
            generic.clone_generics(),
        )
        .is_conv_possible(&mutex_guard_foo, None, &lookup_in(vec![("Foo", foo_spec())]))
        .unwrap()
        .1
        .as_str(),
        "& Foo"
    );

    let box_foo: RustType = str_to_rust_ty("Box<Foo>");

    assert_eq!(
        GenericTypeConv::simple_new(str_to_ty("jlong"), str_to_ty("Box<T>"), generic)
            .is_conv_possible(&str_to_rust_ty("jlong"), Some(&box_foo), &nothing)
            .unwrap()
            .1
            .as_str(),
        "Box < Foo >"
    );

    let generic = get_generic_params_from_code(
        r#"
        impl<T: SwigForeignClass> SwigFrom<Box<T>> for jlong {
            fn swig_from(x: Box<T>, _: *mut JNIEnv) -> jlong {
                unimplemented!();
            }
        }
        "#,
    );
    check_subst(
        &generic,
        "T",
        "Box<T>",
        "Foo",
        "Box<Foo>",
        &lookup_in(vec![("Foo", foo_spec())]),
    );

    let generic = get_generic_params_from_code(
        r#"
        impl<T, E> SwigFrom<Result<T,E>> for T {
            fn swig_from(v: Result<T, E>, _: *mut JNIEnv) -> T {
                unimplemented!();
            }
        }
        "#,
    );
    check_subst(&generic, "Result<T, E>", "T", "Result<u8, &'static str>", "u8", &nothing);
}

fn bound_of(bounds: &swig_typemap::trait_bounds::GenericTraitBoundVec, i: usize) -> (String, bool) {
    let b = bounds.get(i).unwrap();
    (b.ty_param.clone(), b.trait_names.contains("Moo"))
}

#[test]
fn test_get_trait_bounds() {
    assert_eq!(
        get_trait_bounds(&get_generic_params_from_code("impl<T> Foo for Boo {}")).len(),
        0
    );

    let mut moo = TraitNamesSet::new();
    moo.insert("Moo");

    let bounds = get_trait_bounds(&get_generic_params_from_code("impl<T: Moo> Foo for Boo {}"));
    assert_eq!(bounds.len(), 1);
    assert_eq!(bound_of(&bounds, 0), ("T".to_string(), true));
    let only = bounds.get(0).unwrap();
    assert!(only.trait_names.contains_subset(&moo) && moo.contains_subset(&only.trait_names));

    let bounds =
        get_trait_bounds(&get_generic_params_from_code("impl<T> Foo for Boo where T: Moo {}"));
    assert_eq!(bounds.len(), 1);
    assert_eq!(bound_of(&bounds, 0), ("T".to_string(), true));
    let only = bounds.get(0).unwrap();
    assert!(only.trait_names.contains_subset(&moo) && moo.contains_subset(&only.trait_names));
}

#[test]
fn test_if_type_slice_return_elem_type() {
    let ty = str_to_ty("&[i32]");
    let elem_ty = str_to_ty("i32");
    assert_eq!(elem_ty, *if_type_slice_return_elem_type(&ty, false).unwrap());

    assert!(if_type_slice_return_elem_type(&elem_ty, false).is_none());
}

#[test]
fn test_work_with_option() {
    assert_eq!(
        "String",
        normalize_ty_lifetimes(
            &if_option_return_some_type(&str_to_rust_ty("Option<String>")).unwrap()
        )
    );
}

#[test]
fn test_work_with_result() {
    assert_eq!(
        if_result_return_ok_err_types(&str_to_rust_ty("Result<bool, String>"))
            .map(|(x, y)| (normalize_ty_lifetimes(&x), normalize_ty_lifetimes(&y)))
            .unwrap(),
        ("bool".to_string(), "String".to_string())
    );

    assert_eq!(
        if_ty_result_return_ok_type(&str_to_ty("Result<bool, String>"))
            .map(|x| normalize_ty_lifetimes(&x))
            .unwrap(),
        "bool"
    );

    assert_eq!(
        if_ty_result_return_ok_type(&str_to_ty("Result<Option<i32>, String>"))
            .map(|x| normalize_ty_lifetimes(&x))
            .unwrap(),
        "Option < i32 >"
    );
}

#[test]
fn test_work_with_vec() {
    assert_eq!(
        "bool",
        if_vec_return_elem_type(&str_to_rust_ty("Vec<bool>"))
            .map(|x| normalize_ty_lifetimes(&x))
            .unwrap(),
    );
}

#[test]
fn test_work_with_rc() {
    let ty = check_if_smart_pointer_return_inner_type(&str_to_rust_ty("Rc<RefCell<bool>>"), "Rc")
        .unwrap();
    assert_eq!("RefCell < bool >", normalize_ty_lifetimes(&ty));

    let generic_params = Generics::unbounded(&vec!["T".to_string()]);
    assert_eq!(
        "bool",
        GenericTypeConv::simple_new(str_to_ty("RefCell<T>"), str_to_ty("T"), generic_params)
            .is_conv_possible(
                &str_to_rust_ty(&normalize_ty_lifetimes(&ty)),
                None,
                &RegisteredTypes::new()
            )
            .unwrap()
            .1
            .as_str()
    );
}

#[test]
fn test_replace_all_types_with() {
    assert_eq!(str_to_ty("& Vec<T>"), replace_all_types_with(&str_to_ty("&T"), &{
        let mut subst_map = TyParamsSubstMap::new();
        subst_map.insert("T", Some(str_to_ty("Vec<T>")));
        subst_map
    }));

    assert_eq!(
        str_to_ty("Result<i32, String>"),
        replace_all_types_with(&str_to_ty("Result<T, E>"), &{
            let mut subst_map = TyParamsSubstMap::new();
            subst_map.insert("T", Some(str_to_ty("i32")));
            subst_map.insert("E", Some(str_to_ty("String")));
            subst_map
        })
    );
}

#[test]
fn test_list_lifetimes() {
    let my_list_lifetimes = |code| -> Vec<String> {
        let ret = list_lifetimes(&str_to_ty(code));
        ret.iter().map(|v| v.as_str().to_string()).collect()
    };
    assert_eq!(vec!["'a"], my_list_lifetimes("Rc<RefCell<Foo<'a>>>"));
}

#[test]
fn token_text_is_what_the_token_printer_prints() {
    for code in [
        "u8",
        "Foo<T>",
        "Foo<>",
        "a::b::C",
        "::a::b::C<D, E<F>>",
        "&u8",
        "&mut u8",
        "&'a u8",
        "&'a mut [&'b Foo<'c, T>]",
        "[u8]",
        "()",
        "(u8,)",
        "(u8, u16)",
        "(u8, (u16, [u32]), &str)",
        "(u8, u16,)",
        "Foo<(A,), (B, C,)>",
        "&'a (A, &'b B,)",
        "Foo<'a, T, 3, Item = u8>",
        "Iterator<Item = &'a (A, B)>",
        "Vec<*const [Foo<'a, T>; 2]>",
        "Result<Vec<(A, B)>, &'static str>",
        "*const u8",
        "*mut ::std::os::raw::c_void",
        "[u8; 4]",
        "fn(u8, &'a str) -> Vec<u8>",
        "<T as Iterator>::Item",
        "Box<dyn Fn(u8) -> u8 + 'static>",
        "impl Iterator<Item = u8>",
        "!",
        "_",
        "(Foo)",
        "a::B::<C>",
    ] {
        let printed = syn::parse_str::<syn::Type>(code).unwrap().into_token_stream().to_string();
        assert_eq!(swig_typemap::normalize::token_text(&str_to_ty(code)), printed, "{}", code);
    }
    for code in ["u8", "&mut [Foo<T, (A, B)>]", "::a::B<C>", "(A,)", "(A, B,)", "*const u8"] {
        let printed = syn::parse_str::<syn::Type>(code).unwrap().into_token_stream().to_string();
        assert_eq!(normalize_ty_lifetimes(&str_to_ty(code)), printed, "{}", code);
        assert_eq!(str_to_ty(&printed), str_to_ty(code));
    }
}
